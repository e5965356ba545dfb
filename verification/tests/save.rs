use image2ascii::Char2DArray;
use std::io::{Read, Write};

#[test]
fn char2darray_save() {
    let w = 3;
    let h = 2;
    let mut c2d = Char2DArray::new(w, h);

    c2d.buffer[0][0] = 'A';
    c2d.buffer[0][1] = 'B';
    c2d.buffer[0][2] = 'C';

    c2d.buffer[1][0] = 'X';
    c2d.buffer[1][1] = 'Y';
    c2d.buffer[1][2] = 'Z';

    let mut tmp = tempfile::NamedTempFile::new().unwrap();
    let ret = tmp.write_all(c2d.to_text().as_bytes());
    assert!(ret.is_ok());
    assert!(tmp.flush().is_ok());

    let mut save_file = tmp.reopen().unwrap();
    let mut data = String::new();
    let ret = save_file.read_to_string(&mut data);
    assert!(ret.is_ok());
    assert_eq!(data, "ABC\nXYZ\n");
}
