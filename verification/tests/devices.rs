use rxinu::console::{self, Console};
use rxinu::device;
use rxinu::pic::{self, Pic, MASTER_PORT, SLAVE_PORT};
use rxinu::port::PortWrite;
use rxinu::serial::{LineStsFlags, SerialPort, COM1_PORT, COM2_PORT, DATA_READY, THR_EMPTY};
use rxinu::vga::{Color, ColorCode, Writer, MAX_HEIGHT, MAX_WIDTH};

#[test]
fn serial_port_registers() {
    let port = SerialPort::new(COM1_PORT);
    assert_eq!(
        (port.data, port.int_en, port.fifo_ctrl, port.line_ctrl, port.modem_ctrl, port.line_sts, port.modem_sts),
        (0x3F8, 0x3F9, 0x3FA, 0x3FB, 0x3FC, 0x3FD, 0x3FE)
    );
    let init = port.init();
    assert_eq!(init.len(), 8);
    assert_eq!(init[1], PortWrite { port: 0x3FB, value: 0x80 });
    assert_eq!(init[5], PortWrite { port: 0x3FA, value: 0xC7 });
    assert_eq!(init[7], PortWrite { port: 0x3F9, value: 0x01 });
}

#[test]
fn serial_send_encodes_backspace_and_newline() {
    let mut port = SerialPort::new(COM2_PORT);
    port.send(b'a');
    port.send(8);
    port.send(0x7F);
    port.send(b'\n');
    assert_eq!(port.take_queued(), vec![b'a', 8, b' ', 8, 8, b' ', 8, b'\n', b'\r']);
    assert!(port.take_queued().is_empty());
}

#[test]
fn serial_write_str_and_clear_screen() {
    let mut port = SerialPort::new(COM1_PORT);
    port.write_str("hi\n");
    assert_eq!(port.take_queued(), b"hi\n\r".to_vec());
    port.clear_screen();
    let cleared = port.take_queued();
    assert_eq!(cleared.len(), 2 * 25);
    assert_eq!(&cleared[..4], &[b'\n', b'\r', b'\n', b'\r']);
}

#[test]
fn serial_receive_waits_while_data_is_ready() {
    let port = SerialPort::new(COM1_PORT);
    let ready = port.line_sts(DATA_READY | THR_EMPTY | 0x80);
    assert_eq!(ready.bits, DATA_READY | THR_EMPTY);
    assert!(ready.contains(DATA_READY));
    assert_eq!(port.receive(ready), None);
    assert_eq!(port.receive(LineStsFlags::from_bits_truncate(THR_EMPTY)), Some(0x3F8));
}

#[test]
fn serial_init_sets_up_both_ports() {
    let com1 = SerialPort::new(COM1_PORT);
    let com2 = SerialPort::new(COM2_PORT);
    let writes = rxinu::serial::init(&com1, &com2);
    assert_eq!(writes.len(), 16);
    assert_eq!(writes[0].port, 0x3F9);
    assert_eq!(writes[8].port, 0x2F9);
}

#[test]
fn pic_ports_ack_and_masks() {
    let master = Pic::new(MASTER_PORT);
    assert_eq!((master.cmd, master.data), (0x20, 0x21));
    assert_eq!(master.ack(), PortWrite { port: 0x20, value: 0x20 });
    assert_eq!(master.mask_set(0b0000_0001, 3).value, 0b0000_1001);
    assert_eq!(master.mask_set(0b0000_1001, 3).value, 0b0000_1001);
    assert_eq!(master.mask_clear(0b0000_1001, 3).value, 0b0000_0001);
    assert_eq!(master.mask_clear(0b0000_0001, 7).value, 0b0000_0001);
    assert_eq!(master.mask_set(0, 3).port, 0x21);
    let slave = Pic::new(SLAVE_PORT);
    assert_eq!(slave.ack(), PortWrite { port: 0xA0, value: 0x20 });
}

#[test]
fn pic_init_sequence() {
    let writes = pic::init();
    assert_eq!(writes.len(), 12);
    assert_eq!(writes[0], PortWrite { port: 0x20, value: 0x11 });
    assert_eq!(writes[2], PortWrite { port: 0x21, value: 0x20 });
    assert_eq!(writes[3], PortWrite { port: 0xA1, value: 0x28 });
    assert_eq!(writes[11], PortWrite { port: 0xA0, value: 0x20 });
    // the devices wait after each write to a controller
    let writes = device::pic::init();
    assert_eq!(writes.len(), 16);
    assert_eq!(writes[1], PortWrite { port: 0x80, value: 0 });
    let com1 = SerialPort::new(COM1_PORT);
    let com2 = SerialPort::new(COM2_PORT);
    assert_eq!(device::init(&com1, &com2).len(), 16 + 16);
}

fn row_text(writer: &Writer, row: usize) -> Vec<u8> {
    (0..MAX_WIDTH).map(|c| writer.char_at(row, c).ascii_character).collect()
}

#[test]
fn vga_writes_on_the_last_row_and_scrolls() {
    let color = ColorCode::new(Color::LightGray, Color::Black);
    assert_eq!(color.0, 0x07);
    assert_eq!(ColorCode::new(Color::Yellow, Color::Blue).0, 0x1e);
    let mut writer = Writer::new(color);
    writer.write_str("ab");
    assert_eq!(writer.column_position(), 2);
    assert_eq!(&row_text(&writer, MAX_HEIGHT - 1)[..3], b"ab ");
    assert_eq!(writer.char_at(MAX_HEIGHT - 1, 0).color_code, color);
    writer.write_str("\ncd");
    assert_eq!(&row_text(&writer, MAX_HEIGHT - 2)[..2], b"ab");
    assert_eq!(&row_text(&writer, MAX_HEIGHT - 1)[..3], b"cd ");
    assert_eq!(writer.column_position(), 2);
}

#[test]
fn vga_wraps_a_full_row() {
    let mut writer = Writer::new(ColorCode::new(Color::White, Color::Black));
    let line = "x".repeat(MAX_WIDTH);
    writer.write_str(&line);
    assert_eq!(writer.column_position(), MAX_WIDTH);
    writer.write_byte(b'y');
    assert_eq!(writer.column_position(), 1);
    assert_eq!(row_text(&writer, MAX_HEIGHT - 2), line.as_bytes().to_vec());
    assert_eq!(writer.char_at(MAX_HEIGHT - 1, 0).ascii_character, b'y');
    writer.clear_screen();
    for row in 0..MAX_HEIGHT {
        assert!(row_text(&writer, row).iter().all(|&b| b == b' '));
    }
}

#[test]
fn console_writes_to_its_device() {
    let mut console = Console::Serial(SerialPort::new(COM1_PORT));
    console.write_str("ok");
    console::clear_screen(&mut console);
    match &mut console {
        Console::Serial(port) => {
            let sent = port.take_queued();
            assert_eq!(&sent[..2], b"ok");
            assert_eq!(sent.len(), 2 + 50);
        }
        Console::Vga(_) => unreachable!(),
    }
    let mut console = Console::Vga(Writer::new(ColorCode::new(Color::Green, Color::Black)));
    console.write_str("vga");
    console::init(&mut console);
    match &console {
        Console::Vga(writer) => assert!(row_text(writer, MAX_HEIGHT - 1).iter().all(|&b| b == b' ')),
        Console::Serial(_) => unreachable!(),
    }
}

#[test]
fn writing_in_two_parts_writes_the_whole() {
    let color = ColorCode::new(Color::Cyan, Color::Black);
    let mut a = Writer::new(color);
    a.write_str("hello, ");
    a.write_str("world\nagain");
    let mut b = Writer::new(color);
    b.write_str("hello, world\nagain");
    for row in 0..MAX_HEIGHT {
        assert_eq!(row_text(&a, row), row_text(&b, row));
    }
    assert_eq!(a.column_position(), b.column_position());
    let mut p = SerialPort::new(COM1_PORT);
    p.write_str("a\x7f");
    p.write_str("b\n");
    let mut q = SerialPort::new(COM1_PORT);
    q.write_str("a\x7fb\n");
    assert_eq!(p.take_queued(), q.take_queued());
}

#[test]
fn masking_then_unmasking_a_line() {
    let pic = Pic::new(MASTER_PORT);
    for mask in [0u8, 0b1010_1010, 0xff] {
        for irq in 0..8 {
            let set = pic.mask_set(mask, irq).value;
            assert_eq!(pic.mask_clear(set, irq).value, pic.mask_clear(mask, irq).value);
            assert_eq!(pic.mask_set(pic.mask_clear(mask, irq).value, irq).value, set);
            assert_eq!(pic.mask_set(set, irq).value, set);
        }
    }
}
