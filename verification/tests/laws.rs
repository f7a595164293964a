use pixelflut::canvas::Canvas;
use pixelflut::command::match_cmd;
use pixelflut::command::Command;
use pixelflut::command::ParseError;
use pixelflut::handler::command_handler;
use pixelflut::pixel::Pixel;
use pixelflut::worker::process;

fn px(r: u8, g: u8, b: u8, a: u8) -> Pixel {
    Pixel { r, g, b, a }
}

fn snapshot(canvas: &Canvas) -> Vec<Option<Pixel>> {
    let mut all = Vec::new();
    for y in 0..canvas.height() {
        for x in 0..canvas.width() {
            all.push(canvas.get(x, y));
        }
    }
    all
}

fn send(canvas: &mut Canvas, line: &str) -> Option<String> {
    let cmd = process(line)?;
    command_handler(canvas, cmd).map(|bytes| String::from_utf8(bytes).unwrap())
}

#[test]
fn a_write_is_read_back_after_other_requests() {
    let mut canvas = Canvas::new(8, 6);
    assert_eq!(send(&mut canvas, "PX 3 2 C0FFEE\n"), None);
    assert_eq!(send(&mut canvas, "HELP\n"), Some("HELP\n".to_string()));
    assert_eq!(send(&mut canvas, "PX 2 3 123456\n"), None);
    assert_eq!(send(&mut canvas, "PX 3 3 654321\n"), None);
    assert_eq!(send(&mut canvas, "PX 4 2 111111\n"), None);
    assert_eq!(send(&mut canvas, "PX 11 1 222222\n"), None);
    assert_eq!(send(&mut canvas, "SIZE\n"), Some("SIZE 8 6\n".to_string()));
    assert_eq!(send(&mut canvas, "PX 2 3\n"), Some("PX 2 3 123456\n".to_string()));
    assert_eq!(send(&mut canvas, "PX 3 2\n"), Some("PX 3 2 c0ffee\n".to_string()));
}

#[test]
fn every_slot_reads_back_its_own_write() {
    let mut canvas = Canvas::new(6, 5);
    for y in 0..5usize {
        for x in 0..6usize {
            let line = format!("PX {} {} {:02x}{:02x}{:02x}\n", x, y, x, y, 16 * x + y);
            assert_eq!(send(&mut canvas, &line), None);
        }
    }
    for y in 0..5usize {
        for x in 0..6usize {
            let want = format!("PX {} {} {:02x}{:02x}{:02x}\n", x, y, x, y, 16 * x + y);
            assert_eq!(send(&mut canvas, &format!("PX {} {}\n", x, y)), Some(want));
        }
    }
}

#[test]
fn off_the_canvas_nothing_is_answered_and_nothing_changes() {
    let mut canvas = Canvas::new(8, 6);
    send(&mut canvas, "PX 7 5 abcdef\n");
    let before = snapshot(&canvas);
    for (x, y) in [(8usize, 0usize), (0, 6), (8, 6), (8, 5), (7, 6), (100, 100), (usize::MAX, 0)] {
        assert_eq!(send(&mut canvas, &format!("PX {} {}\n", x, y)), None);
        assert_eq!(send(&mut canvas, &format!("PX {} {} ffffff\n", x, y)), None);
        assert_eq!(snapshot(&canvas), before);
    }
}

#[test]
fn size_does_not_depend_on_what_was_written() {
    let mut canvas = Canvas::new(8, 6);
    assert_eq!(send(&mut canvas, "SIZE\n"), Some("SIZE 8 6\n".to_string()));
    send(&mut canvas, "PX 0 0 ffffff\n");
    send(&mut canvas, "PX 7 5 000000\n");
    send(&mut canvas, "PX 8 6 123456\n");
    send(&mut canvas, "PX 1 1\n");
    assert_eq!(send(&mut canvas, "SIZE\n"), Some("SIZE 8 6\n".to_string()));
}

#[test]
fn writes_to_different_slots_all_stay_in_any_order() {
    let writes: Vec<(usize, usize, u8)> =
        (0..48usize).map(|i| (i % 8, i / 8, (5 * i + 1) as u8)).collect();
    let mut forward = Canvas::new(8, 6);
    for &(x, y, v) in writes.iter() {
        command_handler(&mut forward, Command::SetPixel { x, y, color: px(v, v, v, v) });
    }
    let mut backward = Canvas::new(8, 6);
    for &(x, y, v) in writes.iter().rev() {
        command_handler(&mut backward, Command::SetPixel { x, y, color: px(v, v, v, v) });
    }
    let mut shuffled = Canvas::new(8, 6);
    for k in 0..48usize {
        let (x, y, v) = writes[(k * 29) % 48];
        command_handler(&mut shuffled, Command::SetPixel { x, y, color: px(v, v, v, v) });
    }
    for &(x, y, v) in writes.iter() {
        let want = format!("PX {} {} {:02x}{:02x}{:02x}\n", x, y, v, v, v).into_bytes();
        for canvas in [&mut forward, &mut backward, &mut shuffled] {
            assert_eq!(canvas.get(x, y), Some(px(v, v, v, v)));
            assert_eq!(command_handler(canvas, Command::GetPixel { x, y }), Some(want.clone()));
        }
    }
}

#[test]
fn of_two_writes_to_one_slot_the_later_one_stays() {
    let mut one = Canvas::new(4, 4);
    send(&mut one, "PX 2 2 ff0000\n");
    send(&mut one, "PX 2 2 0000ff80\n");
    assert_eq!(one.get(2, 2), Some(px(0, 0, 255, 128)));
    assert_eq!(send(&mut one, "PX 2 2\n"), Some("PX 2 2 0000ff\n".to_string()));

    let mut other = Canvas::new(4, 4);
    send(&mut other, "PX 2 2 0000ff80\n");
    send(&mut other, "PX 2 2 ff0000\n");
    assert_eq!(other.get(2, 2), Some(px(255, 0, 0, 255)));
    assert_eq!(send(&mut other, "PX 2 2\n"), Some("PX 2 2 ff0000\n".to_string()));

    let mut alone = Canvas::new(4, 4);
    send(&mut alone, "PX 2 2 ff0000\n");
    assert_eq!(snapshot(&other), snapshot(&alone));
}

#[test]
fn the_same_order_gives_the_same_canvas() {
    let lines = ["PX 1 1 010203\n", "PX 1 1 040506\n", "PX 0 1 070809\n", "PX 1 1 0a0b0c0d\n"];
    let mut first = Canvas::new(2, 2);
    let mut second = Canvas::new(2, 2);
    for line in lines {
        send(&mut first, line);
    }
    for line in lines {
        send(&mut second, line);
    }
    assert_eq!(snapshot(&first), snapshot(&second));
    assert_eq!(first.get(1, 1), Some(px(10, 11, 12, 13)));
}

#[test]
fn with_and_without_hash_the_same_is_stored() {
    let mut plain = Canvas::new(3, 3);
    let mut hashed = Canvas::new(3, 3);
    send(&mut plain, "PX 1 1 ff0000\n");
    send(&mut hashed, "PX 1 1 #ff0000\n");
    assert_eq!(snapshot(&plain), snapshot(&hashed));
    assert_eq!(plain.get(1, 1), Some(px(255, 0, 0, 255)));
}

#[test]
fn six_digits_store_full_opacity() {
    let mut short = Canvas::new(3, 3);
    let mut long = Canvas::new(3, 3);
    send(&mut short, "PX 1 1 ff0000\n");
    send(&mut long, "PX 1 1 ff0000ff\n");
    assert_eq!(short.get(1, 1), Some(px(255, 0, 0, 255)));
    assert_eq!(snapshot(&short), snapshot(&long));
    assert_eq!(send(&mut short, "PX 1 1\n"), send(&mut long, "PX 1 1\n"));
}

#[test]
fn malformed_lines_get_no_answer_and_change_nothing() {
    let mut canvas = Canvas::new(3, 3);
    send(&mut canvas, "PX 1 1 ff0000\n");
    let before = snapshot(&canvas);
    for line in ["PX abc 1\n", "FOO\n", "\n", "", "PX 1 1 zz\n", "PX 1\n", "px 1 1 ffffff\n"] {
        assert_eq!(send(&mut canvas, line), None);
        assert_eq!(snapshot(&canvas), before);
    }
    assert_eq!(match_cmd("PX abc 1\n"), Err(ParseError::InvalidNumber));
    assert_eq!(match_cmd("FOO\n"), Err(ParseError::UnknownCommand));
    assert_eq!(match_cmd("\n"), Err(ParseError::UnknownCommand));
    assert_eq!(match_cmd(""), Err(ParseError::UnknownCommand));
}

#[test]
fn an_answer_sent_back_as_a_request_restores_the_slot() {
    let mut canvas = Canvas::new(3, 3);
    send(&mut canvas, "PX 2 1 a1b2c3\n");
    let answer = send(&mut canvas, "PX 2 1\n").unwrap();
    let mut copy = Canvas::new(3, 3);
    assert_eq!(send(&mut copy, &answer), None);
    assert_eq!(snapshot(&copy), snapshot(&canvas));
}
