use librespectrum::devs::memory_view::{display_char, Cursor, Keys, MemoryWindow};

fn none() -> Keys {
    Keys {
        up: false,
        down: false,
        left: false,
        right: false,
        page_up: false,
        page_down: false,
        home: false,
        end: false,
        alt: false,
    }
}

fn at(cursor: Cursor, addr: u16) -> MemoryWindow {
    MemoryWindow { cursor, addr, ..MemoryWindow::new() }
}

#[test]
fn starts_at_address_zero() {
    let w = MemoryWindow::new();
    assert_eq!((w.cols, w.rows, w.addr, w.cursor), (8, 16, 0, Cursor::Address(0)));
}

#[test]
fn arrows_move_between_rows_and_scroll_at_the_edges() {
    let mut w = at(Cursor::Memory(2, 0), 0);
    w.handle_keyboard(Keys { down: true, ..none() });
    assert_eq!((w.cursor, w.addr), (Cursor::Memory(2, 1), 0));

    let mut w = at(Cursor::Address(0), 0);
    w.handle_keyboard(Keys { up: true, ..none() });
    assert_eq!((w.cursor, w.addr), (Cursor::Address(0), 0xfff8));

    let mut w = at(Cursor::Text(1, 15), 0x1000);
    w.handle_keyboard(Keys { down: true, ..none() });
    assert_eq!((w.cursor, w.addr), (Cursor::Text(1, 15), 0x1008));

    let mut w = at(Cursor::Text(1, 4), 0x1000);
    w.handle_keyboard(Keys { down: true, alt: true, ..none() });
    assert_eq!((w.cursor, w.addr), (Cursor::Text(1, 15), 0x1000));
    w.handle_keyboard(Keys { up: true, alt: true, ..none() });
    assert_eq!((w.cursor, w.addr), (Cursor::Text(1, 0), 0x1000));
}

#[test]
fn down_scrolls_by_the_row_before_the_press() {
    let mut w = at(Cursor::Address(15), 0x2000);
    w.handle_keyboard(Keys { up: true, down: true, ..none() });
    assert_eq!((w.cursor, w.addr), (Cursor::Address(15), 0x2008));
}

#[test]
fn arrows_cross_address_bytes_and_text() {
    let mut w = at(Cursor::Address(3), 0);
    w.handle_keyboard(Keys { right: true, ..none() });
    assert_eq!(w.cursor, Cursor::Memory(0, 3));

    let mut w = at(Cursor::Memory(7, 3), 0);
    w.handle_keyboard(Keys { right: true, ..none() });
    assert_eq!(w.cursor, Cursor::Text(0, 3));

    let mut w = at(Cursor::Text(7, 3), 0);
    w.handle_keyboard(Keys { right: true, ..none() });
    assert_eq!(w.cursor, Cursor::Text(7, 3));

    let mut w = at(Cursor::Address(3), 0);
    w.handle_keyboard(Keys { right: true, alt: true, ..none() });
    assert_eq!(w.cursor, Cursor::Memory(7, 3));

    let mut w = at(Cursor::Text(0, 2), 0);
    w.handle_keyboard(Keys { left: true, ..none() });
    assert_eq!(w.cursor, Cursor::Memory(7, 2));

    let mut w = at(Cursor::Text(0, 2), 0);
    w.handle_keyboard(Keys { left: true, alt: true, ..none() });
    assert_eq!(w.cursor, Cursor::Memory(0, 2));

    let mut w = at(Cursor::Memory(0, 2), 0);
    w.handle_keyboard(Keys { left: true, ..none() });
    assert_eq!(w.cursor, Cursor::Address(2));

    let mut w = at(Cursor::Address(2), 0);
    w.handle_keyboard(Keys { left: true, ..none() });
    assert_eq!(w.cursor, Cursor::Address(2));
}

#[test]
fn pages_home_and_end() {
    let mut w = at(Cursor::Memory(4, 5), 0);
    w.handle_keyboard(Keys { page_up: true, ..none() });
    assert_eq!(w.addr, 0xff80);
    w.handle_keyboard(Keys { page_down: true, ..none() });
    w.handle_keyboard(Keys { page_down: true, ..none() });
    assert_eq!(w.addr, 0x0080);

    w.handle_keyboard(Keys { home: true, ..none() });
    assert_eq!(w.cursor, Cursor::Address(5));
    w.handle_keyboard(Keys { end: true, ..none() });
    assert_eq!(w.cursor, Cursor::Text(7, 5));
}

#[test]
fn row_addresses_wrap() {
    let w = at(Cursor::Address(0), 0xfff0);
    assert_eq!(w.row_addr(0), 0xfff0);
    assert_eq!(w.row_addr(3), 0x0008);
}

#[test]
fn shows_printable_bytes_as_text() {
    assert_eq!(display_char(0x41), 'A');
    assert_eq!(display_char(0x20), ' ');
    assert_eq!(display_char(0x7e), '~');
    assert_eq!(display_char(0x1f), '.');
    assert_eq!(display_char(0x7f), '.');
    assert_eq!(display_char(0xc1), '.');
}

#[test]
fn page_down_then_up_restores_the_view() {
    let mut w = at(Cursor::Memory(3, 9), 0xffc0);
    w.handle_keyboard(Keys { page_down: true, ..none() });
    assert_eq!(w.addr, 0x0040);
    w.handle_keyboard(Keys { page_up: true, ..none() });
    assert_eq!(w, at(Cursor::Memory(3, 9), 0xffc0));
}

#[test]
fn down_then_up_restores_the_cursor() {
    let mut w = at(Cursor::Text(2, 5), 0x1234);
    w.handle_keyboard(Keys { down: true, ..none() });
    w.handle_keyboard(Keys { up: true, ..none() });
    assert_eq!(w, at(Cursor::Text(2, 5), 0x1234));
}
