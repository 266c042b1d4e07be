use rust_demos::asm_demo;
use rust_demos::borrow_demo::Demo as Bytes;
use rust_demos::clippy_demo::PinWrapper;
use rust_demos::cmp_demo::{largest, A};
use rust_demos::const_demo;
use rust_demos::deref_demo::MyBox;
use rust_demos::future_demo::{download_delay_ms, next_id, PollStep, SimpleFuture};
use rust_demos::sql::sql;
use rust_demos::thread_demo::{fan_out, is_report_point, should_print};
use rust_demos::unsafe_rust::{outline, repeat_char, Demo, Wrapper};
use rust_demos::vga::{
    get_fb_seg, graphics_writes, mode_320x200x256, mod_switch, text_cells, PortOp, VGA_AC_INDEX,
    VGA_CRTC_DATA, VGA_INSTAT_READ, VGA_MISC_WRITE, VGA_SEQ_DATA, VGA_SEQ_INDEX,
};

#[test]
fn largest_of_numbers_and_chars() {
    assert_eq!(largest(&[34, 50, 25, 100, 65]), 100);
    assert_eq!(largest(&['y', 'm', 'a', 'q']), 'y');
    assert_eq!(largest(&[7]), 7);
    assert!(A { A: 2 } > A { A: 1 });
    assert!(A { A: 2 } == A { A: 2 });
}

#[test]
fn const_functions() {
    assert_eq!(const_demo::f1(3), 10);
    assert_eq!(const_demo::a(3), 13);
    assert_eq!(const_demo::a(5), 21);
}

#[test]
fn register_arithmetic() {
    assert_eq!(asm_demo::f(), 8);
    assert_eq!(asm_demo::f1(), 12);
    // 8 ways, 1 partition, 64-byte lines, 64 sets: 32 KiB.
    let ebx = (7 << 22) | (0 << 12) | 63;
    assert_eq!(asm_demo::cache(ebx, 63), 32 * 1024);
}

#[test]
fn my_box_counts_up_to_five() {
    let mut b = MyBox::new(String::from("sd"));
    assert_eq!(b.shown(), vec![0, 1, 2, 3, 4, 5]);
    assert_eq!(b.deref(), "sd");
    assert_eq!(b.shown(), vec![5]);
    assert_eq!(b.deref(), "sd");
}

#[test]
fn byte_slices_as_text() {
    let mut d = Bytes::new(Vec::from("hello world"));
    assert_eq!(d.get_slice(1, 2), "e");
    d.change_and_drop(Vec::from("new hello"));
    assert_eq!(d.get_slice(4, 9), "hello");
}

#[test]
fn pin_wrapper_hands_out_its_value() {
    let mut p = PinWrapper::new(String::from("hello"));
    assert_eq!(p.deref(), "hello");
    p.deref_mut().push('!');
    assert_eq!(p.deref(), "hello!");
}

#[test]
fn outlines_and_texts() {
    let demo = Demo { a: 1, b: 2, c: 4, d: 5 };
    assert_eq!(demo.to_string(), "Demo { a: 1, b: 2, c: 4, d: 5 }");
    let lines = outline(&demo.to_string());
    assert_eq!(lines.len(), 5);
    assert_eq!(lines[0], "*".repeat(35));
    assert_eq!(lines[1], format!("*{}*", " ".repeat(33)));
    assert_eq!(lines[2], "* Demo { a: 1, b: 2, c: 4, d: 5 } *");
    assert_eq!(lines[3], lines[1]);
    assert_eq!(lines[4], lines[0]);
    assert_eq!(outline("é")[0], "******");
    assert_eq!(Demo { a: -3, b: 0, c: 0, d: 0 }.to_string(), "Demo { a: -3, b: 0, c: 0, d: 0 }");
    assert_eq!(Wrapper(vec![String::from("hello"), String::from("world")]).to_string(), "[hello, world]");
    assert_eq!(Wrapper(vec![]).to_string(), "[]");
    assert_eq!(repeat_char('x', 3), "xxx");
}

#[test]
fn simple_future_is_ready_on_the_sixth_poll() {
    let mut now = 0;
    let id = next_id(&mut now);
    assert_eq!((id, now), (1, 1));
    let mut fut = SimpleFuture::new(|| 42, id);
    for _ in 0..5 {
        assert!(matches!(fut.poll(), PollStep::Pending));
    }
    match fut.poll() {
        PollStep::Ready(f) => assert_eq!(f(), 42),
        PollStep::Pending => panic!("expected ready"),
    }
    assert_eq!(fut.times(), 6);
    assert_eq!(fut.id(), 1);
}

#[test]
fn download_delay_range() {
    for _ in 0..100 {
        let d = download_delay_ms();
        assert!((100..3000).contains(&d));
    }
}

#[test]
fn thread_tree_decisions() {
    assert_eq!(fan_out(45), Some((45, 35)));
    assert_eq!(fan_out(5), Some((5, -5)));
    assert_eq!(fan_out(0), None);
    assert!(is_report_point(200));
    assert!(is_report_point(-100));
    assert!(!is_report_point(150));
    assert!(should_print(100, 200));
    assert!(!should_print(200, 200));
}

#[test]
fn sql_checked_by_mysql_grammar() {
    assert_eq!(sql("select * from data where id = 1"), Ok(String::from("\"select * from data where id = 1\"")));
    assert_eq!(
        sql("select * from t where name = 'a\\b'"),
        Ok(String::from("\"select * from t where name = 'a\\\\b'\""))
    );
    assert!(sql("selec * frm").is_err());
}

#[test]
fn vga_text_and_frame_buffer() {
    assert_eq!(text_cells(b"hi"), vec![b'h', 0x0b, b'i', 0x0b]);
    assert_eq!(get_fb_seg(0b0000), 0xA0000);
    assert_eq!(get_fb_seg(0b0100), 0xA0000);
    assert_eq!(get_fb_seg(0b1000), 0xB0000);
    assert_eq!(get_fb_seg(0b1100), 0xB8000);
    assert_eq!(get_fb_seg(0xF3), 0xA0000);
    assert_eq!(get_fb_seg(0x0F), 0xB8000);
    let w = graphics_writes(300);
    assert_eq!(w.len(), 300);
    assert_eq!(w[257], (514, 1));
}

#[test]
fn mode_switch_writes() {
    let desc = mode_320x200x256();
    let ops = mod_switch(&desc);
    assert_eq!(ops.len(), 1 + 10 + 4 + 50 + 18 + 63 + 2);
    assert_eq!(ops[0], PortOp::Out { port: VGA_MISC_WRITE, value: 0x63 });
    assert_eq!(ops[1], PortOp::Out { port: VGA_SEQ_INDEX, value: 1 });
    assert_eq!(ops[2], PortOp::Out { port: VGA_SEQ_DATA, value: 0x03 });
    assert_eq!(ops[12], PortOp::OrIn { port: VGA_CRTC_DATA, mask: 0x80 });
    assert_eq!(ops[83], PortOp::In { port: VGA_INSTAT_READ });
    assert_eq!(ops[84], PortOp::Out { port: VGA_AC_INDEX, value: 40 });
    assert_eq!(ops[147], PortOp::Out { port: VGA_AC_INDEX, value: 0x20 });
}
