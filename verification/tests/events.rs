use pci_scan::event::{
    Event, EventOption, KeyEvent, MouseEvent, OpenEvent, RedrawEvent, K_ESC, K_F12, REDRAW_ALL,
    REDRAW_CURSOR, REDRAW_NONE,
};

fn event(code: char, a: isize, b: isize, c: isize, d: isize, e: isize) -> Event {
    Event { code, a, b, c, d, e }
}

#[test]
fn new_event_is_null() {
    assert_eq!(Event::new(), event('\0', 0, 0, 0, 0, 0));
    assert_eq!(Event::new().to_option(&[]), EventOption::NoEvent);
}

#[test]
fn mouse_event_goes_to_event_and_back() {
    let mouse = MouseEvent { x: -3, y: 700, left_button: true, right_button: false, middle_button: true };
    assert_eq!(mouse.to_event(), event('m', -3, 700, 1, 1, 0));
    assert_eq!(MouseEvent::from_event(mouse.to_event()), mouse);
}

#[test]
fn mouse_buttons_are_down_above_zero_only() {
    let mouse = MouseEvent::from_event(event('m', 1, 2, 5, 0, -1));
    assert_eq!(
        mouse,
        MouseEvent { x: 1, y: 2, left_button: true, middle_button: false, right_button: false }
    );
}

#[test]
fn key_event_goes_to_event_and_back() {
    let key = KeyEvent { character: 'A', scancode: K_F12, pressed: true };
    assert_eq!(key.to_event(), event('k', 0x41, 0x58, 1, 0, 0));
    assert_eq!(KeyEvent::from_event(key.to_event()), key);
    let key = KeyEvent { character: '\u{10FFFF}', scancode: K_ESC, pressed: false };
    assert_eq!(key.to_event(), event('k', 0x10FFFF, 1, 0, 0, 0));
    assert_eq!(KeyEvent::from_event(key.to_event()), key);
}

#[test]
fn key_event_takes_the_character_with_the_given_code() {
    assert_eq!(KeyEvent::from_event(event('k', 0x41, 0x1E, 1, 0, 0)).character, 'A');
    assert_eq!(KeyEvent::from_event(event('k', 0xE9, 0, 0, 0, 0)).character, 'é');
    assert_eq!(KeyEvent::from_event(event('k', 0xD7FF, 0, 0, 0, 0)).character, '\u{D7FF}');
    assert_eq!(KeyEvent::from_event(event('k', 0xE000, 0, 0, 0, 0)).character, '\u{E000}');
}

#[test]
fn key_event_of_no_character_is_the_zero_character() {
    assert_eq!(KeyEvent::from_event(event('k', 0xD800, 0, 0, 0, 0)).character, '\0');
    assert_eq!(KeyEvent::from_event(event('k', 0xDFFF, 0, 0, 0, 0)).character, '\0');
    assert_eq!(KeyEvent::from_event(event('k', 0x11_0000, 0, 0, 0, 0)).character, '\0');
    assert_eq!(KeyEvent::from_event(event('k', -1, 0, 0, 0, 0)).character, '\0');
}

#[test]
fn key_scancode_is_the_low_byte() {
    let key = KeyEvent::from_event(event('k', 0x61, 0x1234, 0, 9, 9));
    assert_eq!(key, KeyEvent { character: 'a', scancode: 0x34, pressed: false });
    assert_eq!(KeyEvent::from_event(event('k', 0x61, -1, 2, 0, 0)).scancode, 0xFF);
}

#[test]
fn redraw_event_goes_to_event_and_back() {
    for redraw in [REDRAW_NONE, REDRAW_CURSOR, REDRAW_ALL, usize::MAX] {
        let it = RedrawEvent { redraw };
        assert_eq!(it.to_event().code, 'r');
        assert_eq!(RedrawEvent::from_event(it.to_event()), it);
    }
    assert_eq!(RedrawEvent { redraw: REDRAW_ALL }.to_event(), event('r', 2, 0, 0, 0, 0));
    assert_eq!(RedrawEvent { redraw: usize::MAX }.to_event().a, -1);
}

#[test]
fn open_event_string_is_terminated_by_zero() {
    let open = OpenEvent { url_string: b"file:/a".to_vec() };
    assert_eq!(open.c_string(), b"file:/a\0".to_vec());
    assert_eq!(OpenEvent { url_string: Vec::new() }.c_string(), vec![0u8]);
    assert_eq!(open.to_event(0x7000), event('o', 0x7000, 0, 0, 0, 0));
}

#[test]
fn open_event_url_ends_at_the_first_zero() {
    let it = event('o', 0x7000, 0, 0, 0, 0);
    assert_eq!(OpenEvent::from_event(it, b"file:/a\0junk\0").url_string, b"file:/a".to_vec());
    assert_eq!(OpenEvent::from_event(it, b"\0file").url_string, Vec::<u8>::new());
    assert_eq!(OpenEvent::from_event(it, b"").url_string, Vec::<u8>::new());
    assert_eq!(OpenEvent::from_event(it, b"abc").url_string, b"abc".to_vec());
}

#[test]
fn open_event_url_is_cut_at_4096_bytes() {
    let it = event('o', 0, 0, 0, 0, 0);
    let long = vec![b'x'; 5000];
    assert_eq!(OpenEvent::from_event(it, &long).url_string, vec![b'x'; 4096]);
    let mut exact = vec![b'y'; 4096];
    exact.push(0);
    assert_eq!(OpenEvent::from_event(it, &exact).url_string, vec![b'y'; 4096]);
}

#[test]
fn open_event_comes_back_from_its_string() {
    let open = OpenEvent { url_string: b"http://example/".to_vec() };
    let memory = open.c_string();
    assert_eq!(OpenEvent::from_event(open.to_event(0x1000), &memory), open);
}

#[test]
fn to_option_goes_by_the_code() {
    let memory = b"disk:/x\0";
    assert_eq!(
        event('m', 4, 5, 1, 0, 0).to_option(memory),
        EventOption::Mouse(MouseEvent {
            x: 4,
            y: 5,
            left_button: true,
            middle_button: false,
            right_button: false,
        })
    );
    assert_eq!(
        event('k', 0x42, 0x30, 1, 0, 0).to_option(memory),
        EventOption::Key(KeyEvent { character: 'B', scancode: 0x30, pressed: true })
    );
    assert_eq!(
        event('r', 1, 0, 0, 0, 0).to_option(memory),
        EventOption::Redraw(RedrawEvent { redraw: REDRAW_CURSOR })
    );
    assert_eq!(
        event('o', 0x9000, 0, 0, 0, 0).to_option(memory),
        EventOption::Open(OpenEvent { url_string: b"disk:/x".to_vec() })
    );
    assert_eq!(event('\0', 1, 2, 3, 4, 5).to_option(memory), EventOption::NoEvent);
    let odd = event('z', 1, 2, 3, 4, 5);
    assert_eq!(odd.to_option(memory), EventOption::Unknown(odd));
}
