use crafty_os::boot::{
    check_load_plan, load_segments, select_mode, Elf64Ehdr, Elf64Phdr, LoadSegment, PSF1Font, PSF1FontHeader,
};
use crafty_os::gop::{put_char, Gop, Pos, Writer as GopWriter};
use crafty_os::mouse::{mouse_packet_handler, MouseCursor, MouseState};
use crafty_os::vga_buffer::colour::ColourCode;
use crafty_os::vga_buffer::writer::{Buffer, ScreenChar, Writer, MAPPED_CELLS};

fn put16(b: &mut [u8], off: usize, v: u16) {
    b[off..off + 2].copy_from_slice(&v.to_le_bytes());
}
fn put32(b: &mut [u8], off: usize, v: u32) {
    b[off..off + 4].copy_from_slice(&v.to_le_bytes());
}
fn put64(b: &mut [u8], off: usize, v: u64) {
    b[off..off + 8].copy_from_slice(&v.to_le_bytes());
}

fn kernel_image() -> Vec<u8> {
    let mut b = vec![0u8; 64 + 2 * 56];
    b[0..4].copy_from_slice(&[0x7F, b'E', b'L', b'F']);
    b[4] = 2;
    b[5] = 1;
    put16(&mut b, 16, 2);
    put16(&mut b, 18, 62);
    put32(&mut b, 20, 1);
    put64(&mut b, 24, 0x10_0000);
    put64(&mut b, 32, 64);
    put16(&mut b, 54, 56);
    put16(&mut b, 56, 2);
    // a loadable segment
    put32(&mut b, 64, 1);
    put64(&mut b, 64 + 8, 0x1000);
    put64(&mut b, 64 + 24, 0x10_0123);
    put64(&mut b, 64 + 32, 0x500);
    put64(&mut b, 64 + 40, 0x2001);
    // a note segment
    put32(&mut b, 120, 4);
    b
}

#[test]
fn elf_header_parse_and_validate() {
    let img = kernel_image();
    let h = Elf64Ehdr::parse(&img);
    assert_eq!(h.e_entry, 0x10_0000);
    assert_eq!(h.e_phoff, 64);
    assert_eq!(h.e_phnum, 2);
    assert_eq!(h.e_phentsize, 56);
    assert!(h.is_valid());
    let mut bad = img.clone();
    bad[18] = 3;
    assert!(!Elf64Ehdr::parse(&bad).is_valid());
    let mut not_elf = img.clone();
    not_elf[1] = b'X';
    assert!(!Elf64Ehdr::parse(&not_elf).is_valid());
}

#[test]
fn elf_program_header_parse() {
    let img = kernel_image();
    let p = Elf64Phdr::parse(&img, 64);
    assert_eq!(p.p_type, 1);
    assert_eq!(p.p_offset, 0x1000);
    assert_eq!(p.p_paddr, 0x10_0123);
    assert_eq!(p.p_filesz, 0x500);
    assert_eq!(p.p_memsz, 0x2001);
}

#[test]
fn elf_load_plan_takes_loadable_segments() {
    let img = kernel_image();
    let h = Elf64Ehdr::parse(&img);
    assert!(check_load_plan(&img, &h));
    let segs = load_segments(&img, &h);
    assert_eq!(
        segs,
        vec![LoadSegment { addr: 0x10_0000, pages: 3, file_offset: 0x1000, paddr: 0x10_0123, filesz: 0x500 }]
    );
}

#[test]
fn elf_load_plan_visits_every_program_header() {
    let mut img = kernel_image();
    // the note first, the loadable segment second
    put32(&mut img, 64, 4);
    put32(&mut img, 120, 1);
    put64(&mut img, 120 + 8, 0x2000);
    put64(&mut img, 120 + 24, 0x20_0000);
    put64(&mut img, 120 + 32, 0x10);
    put64(&mut img, 120 + 40, 0x1800);
    let h = Elf64Ehdr::parse(&img);
    assert!(check_load_plan(&img, &h));
    assert_eq!(
        load_segments(&img, &h),
        vec![LoadSegment { addr: 0x20_0000, pages: 2, file_offset: 0x2000, paddr: 0x20_0000, filesz: 0x10 }]
    );
}

#[test]
fn elf_load_plan_refuses_headers_past_the_end() {
    let img = kernel_image();
    let mut h = Elf64Ehdr::parse(&img);
    h.e_phnum = 4;
    assert!(!check_load_plan(&img, &h));
    h.e_phnum = 2;
    h.e_phentsize = 0;
    assert!(!check_load_plan(&img, &h));
}

#[test]
fn psf1_header_and_sizes() {
    let h = PSF1FontHeader::from_bytes(&[0x36, 0x04, 0x00, 16, 0xAA]);
    assert!(h.is_valid());
    assert_eq!(h.glyph_buffer_size(), 4096);
    let h512 = PSF1FontHeader::from_bytes(&[0x36, 0x04, 0x01, 8]);
    assert_eq!(h512.glyph_buffer_size(), 4096);
    assert!(!PSF1FontHeader::from_bytes(&[0x37, 0x04, 0, 16]).is_valid());
    let null = PSF1Font::null_font();
    assert!(null.psf1_header.is_valid());
    assert_eq!(null.glyph_buffer, vec![0]);
}

#[test]
fn select_mode_takes_last_fitting_resolution() {
    assert_eq!(select_mode(&[(640, 480), (1600, 1200), (1920, 1080)]), Some(1));
    assert_eq!(select_mode(&[(800, 600), (1024, 768)]), Some(1));
    assert_eq!(select_mode(&[(1920, 1080)]), None);
    assert_eq!(select_mode(&[]), None);
}

fn font_with_glyph(ch: u8, rows: [u8; 16]) -> PSF1Font {
    let mut glyphs = vec![0u8; 256 * 16];
    glyphs[ch as usize * 16..ch as usize * 16 + 16].copy_from_slice(&rows);
    PSF1Font::new(PSF1FontHeader::from_bytes(&[0x36, 0x04, 0, 16]), glyphs)
}

fn framebuffer(h: usize, v: usize) -> Gop {
    Gop { buffer: vec![0u32; h * v + 16 * h], buffer_size: h * v * 4, horizonal: h, vertical: v, stride: h }
}

#[test]
fn put_char_draws_set_glyph_bits() {
    let mut gop = framebuffer(16, 16);
    let mut rows = [0u8; 16];
    rows[0] = 0b1000_0001;
    rows[15] = 0b0100_0000;
    let font = font_with_glyph(b'A', rows);
    put_char(&mut gop, &font.glyph_buffer, 0xFF_00FF, 'A', 8, 0);
    assert_eq!(gop.buffer[8], 0xFF_00FF);
    assert_eq!(gop.buffer[9], 0);
    assert_eq!(gop.buffer[15], 0xFF_00FF);
    assert_eq!(gop.buffer[15 * 16 + 9], 0xFF_00FF);
    assert_eq!(gop.buffer[15 * 16 + 8], 0);
}

#[test]
fn framebuffer_writer_advances_and_wraps() {
    let mut rows = [0u8; 16];
    rows[0] = 0xFF;
    let mut w = GopWriter { pos: Pos { x: 0, y: 0 }, gop: framebuffer(16, 32), font: font_with_glyph(b'x', rows), colour: 7 };
    w.write_byte('x');
    assert_eq!((w.pos.x, w.pos.y), (8, 0));
    assert_eq!(w.gop.buffer[0], 7);
    w.write_byte('x');
    assert_eq!((w.pos.x, w.pos.y), (0, 16));
    w.write_byte('\n');
    assert_eq!((w.pos.x, w.pos.y), (0, 16));
    w.set_colour(9);
    w.write_string("x\n");
    assert_eq!(w.gop.buffer[0], 9);
    assert_eq!((w.pos.x, w.pos.y), (0, 16));
}

fn blank_writer() -> Writer {
    Writer::new(Buffer {
        chars: vec![ScreenChar { ascii_character: 0, colour_code: ColourCode(0) }; MAPPED_CELLS],
    })
}

#[test]
fn mouse_moves_highlight_and_stays_on_screen() {
    let mut w = blank_writer();
    let mut c = MouseCursor::new();
    mouse_packet_handler(&mut c, MouseState { x_moved: true, x: 5, y_moved: true, y: -3 }, &mut w);
    assert_eq!((c.x, c.y), (5, 3));
    assert_eq!(w.buffer.chars[3 * 80 + 5].colour_code.0, 0xF0);
    assert_eq!(w.buffer.chars[0].colour_code.0, 0xF0);
    mouse_packet_handler(&mut c, MouseState { x_moved: true, x: 500, y_moved: true, y: 100 }, &mut w);
    assert_eq!((c.x, c.y), (79, 0));
    assert_eq!(w.buffer.chars[3 * 80 + 5].colour_code.0, 0x0F);
    mouse_packet_handler(&mut c, MouseState { x_moved: false, x: -500, y_moved: true, y: -400 }, &mut w);
    assert_eq!((c.x, c.y), (79, 24));
}
