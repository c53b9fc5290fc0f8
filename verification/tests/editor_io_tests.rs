use pandagen::editor_io::{decode_document, save_as_message, save_message, EditorIoError, StorageBackendKind};
use pandagen::output::{BareMetalOutput, SerialPort};

#[test]
fn backend_names() {
    assert_eq!(StorageBackendKind::RamDisk.name(), "ramdisk");
    assert_eq!(StorageBackendKind::VirtioBlkMmio.name(), "virtio-blk-mmio");
}

#[test]
fn decoding_documents() {
    assert_eq!(decode_document(b"Hello, World!"), Ok("Hello, World!".to_string()));
    assert_eq!(decode_document(&[0xff, 0xfe]), Err(EditorIoError::InvalidUtf8));
}

#[test]
fn save_messages() {
    assert_eq!(save_message(Some("test.txt")), Ok("Saved to test.txt".to_string()));
    assert_eq!(
        save_message(None),
        Err(EditorIoError::StorageError("No path specified".to_string()))
    );
    assert_eq!(save_as_message("new_file.txt"), "Saved as new_file.txt");
}

#[test]
fn serial_port_keeps_what_is_written() {
    let mut serial = SerialPort::new(0x3F8);
    serial.init();
    assert!(serial.write_byte(b'A').is_ok());
    assert!(serial.write_str("bc").is_ok());
    assert_eq!(serial.try_read_byte(), None);
    assert_eq!(serial.buffer, "Abc");
}

#[test]
fn render_to_serial_writes_once_per_revision() {
    let mut serial = SerialPort::new(0x3F8);
    let mut output = BareMetalOutput::new();
    output.render_to_serial(&mut serial, &["x"], None, None, Some("st"), 3);
    let first = serial.buffer.clone();
    assert!(first.contains("--- Editor State ---"));
    assert!(first.contains("\nx\n"));
    assert!(first.contains("\nst\n"));
    output.render_to_serial(&mut serial, &["x"], None, None, Some("st"), 3);
    assert_eq!(serial.buffer, first);
    assert_eq!(output.last_revision(), Some(3));
}
