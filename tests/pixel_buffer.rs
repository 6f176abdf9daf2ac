use std::cell::Cell;

use winit_blit::{
    BlitRect, PixelBuffer, PixelBufferCreationError, PixelBufferFormatType, Platform, SurfaceHandle,
};

fn windows_surface() -> SurfaceHandle {
    SurfaceHandle::Windows { hwnd: 0x1234 }
}

fn web_surface() -> SurfaceHandle {
    SurfaceHandle::Web { id: 1 }
}

fn fill_distinct_rows(buf: &mut PixelBuffer) {
    let h = buf.height();
    for i in 0..h {
        let row = buf.row_mut(i).unwrap();
        for (k, byte) in row.iter_mut().enumerate() {
            *byte = (i as usize * 31 + k) as u8;
        }
    }
}

fn check_distinct_rows(buf: &PixelBuffer) {
    let h = buf.height();
    for i in 0..h {
        let row = buf.row(i).unwrap();
        assert_eq!(row.len(), buf.width() as usize * buf.bytes_per_pixel());
        for (k, byte) in row.iter().enumerate() {
            assert_eq!(*byte, (i as usize * 31 + k) as u8);
        }
    }
}

#[test]
fn created_buffer_reports_its_size() {
    let cases = [
        (windows_surface(), PixelBufferFormatType::BGR),
        (windows_surface(), PixelBufferFormatType::BGRA),
        (web_surface(), PixelBufferFormatType::RGBA),
    ];
    for (surface, format) in cases {
        for (w, h) in [(1u32, 1u32), (3, 2), (5, 7), (256, 256)] {
            let buf = PixelBuffer::new(w, h, format, &surface).unwrap();
            assert_eq!(buf.width(), w);
            assert_eq!(buf.height(), h);
            assert!(buf.row_len() >= w as usize * buf.bytes_per_pixel());
            assert_eq!(buf.bits_per_pixel(), 8 * buf.bytes_per_pixel());
            assert_eq!(buf.format(), format);
            assert_eq!(buf.surface(), surface);
            assert_eq!(buf.bytes().len(), buf.row_len() * h as usize);
            assert!(buf.bytes().iter().all(|b| *b == 0));
        }
    }
}

#[test]
fn unsupported_formats_are_refused() {
    for format in [PixelBufferFormatType::RGB, PixelBufferFormatType::RGBA] {
        assert!(matches!(
            PixelBuffer::new(4, 4, format, &windows_surface()),
            Err(PixelBufferCreationError::FormatNotSupported)
        ));
    }
    for format in [PixelBufferFormatType::BGR, PixelBufferFormatType::BGRA, PixelBufferFormatType::RGB] {
        assert!(matches!(
            PixelBuffer::new(4, 4, format, &web_surface()),
            Err(PixelBufferCreationError::FormatNotSupported)
        ));
    }
}

#[test]
fn windows_rows_are_padded_to_four_bytes() {
    let buf = PixelBuffer::new(3, 2, PixelBufferFormatType::BGR, &windows_surface()).unwrap();
    assert_eq!(buf.bytes_per_pixel(), 3);
    assert_eq!(buf.row_len(), 12);
    assert_eq!(buf.bytes().len(), 24);
    assert_eq!(buf.row(0).unwrap().len(), 9);
    let web = PixelBuffer::new(3, 2, PixelBufferFormatType::RGBA, &web_surface()).unwrap();
    assert_eq!(web.row_len(), 12);
    assert_eq!(web.bytes().len(), 24);
}

#[test]
fn bottom_up_storage_keeps_top_row_last() {
    let mut buf = PixelBuffer::new(2, 3, PixelBufferFormatType::BGRA, &windows_surface()).unwrap();
    assert!(buf.layout().bottom_up);
    buf.row_mut(0).unwrap().copy_from_slice(&[1, 2, 3, 4, 5, 6, 7, 8]);
    assert_eq!(&buf.bytes()[16..24], &[1, 2, 3, 4, 5, 6, 7, 8]);
    assert!(buf.bytes()[..16].iter().all(|b| *b == 0));
    assert_eq!(buf.layout().physical_row(0), 2);
    assert_eq!(buf.layout().row_start(0), 16);
}

#[test]
fn top_down_storage_keeps_top_row_first() {
    let mut buf = PixelBuffer::new(2, 3, PixelBufferFormatType::RGBA, &web_surface()).unwrap();
    assert!(!buf.layout().bottom_up);
    buf.row_mut(0).unwrap().copy_from_slice(&[1, 2, 3, 4, 5, 6, 7, 8]);
    assert_eq!(&buf.bytes()[0..8], &[1, 2, 3, 4, 5, 6, 7, 8]);
    assert!(buf.bytes()[8..].iter().all(|b| *b == 0));
    assert_eq!(buf.layout().physical_row(0), 0);
}

#[test]
fn row_order_is_the_same_on_both_backends() {
    let mut bottom_up = PixelBuffer::new(3, 4, PixelBufferFormatType::BGRA, &windows_surface()).unwrap();
    let mut top_down = PixelBuffer::new(3, 4, PixelBufferFormatType::RGBA, &web_surface()).unwrap();
    fill_distinct_rows(&mut bottom_up);
    fill_distinct_rows(&mut top_down);
    check_distinct_rows(&bottom_up);
    check_distinct_rows(&top_down);
    let a: Vec<Vec<u8>> = bottom_up.rows().iter().map(|r| r.to_vec()).collect();
    let b: Vec<Vec<u8>> = top_down.rows().iter().map(|r| r.to_vec()).collect();
    assert_eq!(a, b);
    assert_ne!(bottom_up.bytes(), top_down.bytes());
}

#[test]
fn padding_is_never_exposed_or_touched() {
    let mut buf = PixelBuffer::new(3, 3, PixelBufferFormatType::BGR, &windows_surface()).unwrap();
    for row in buf.rows_mut() {
        assert_eq!(row.len(), 9);
        for b in row.iter_mut() {
            *b = 0xff;
        }
    }
    let bytes = buf.bytes();
    for r in 0..3 {
        assert!(bytes[r * 12..r * 12 + 9].iter().all(|b| *b == 0xff));
        assert!(bytes[r * 12 + 9..r * 12 + 12].iter().all(|b| *b == 0));
    }
}

#[test]
fn rows_mut_writes_are_seen_by_row() {
    for (surface, format) in [
        (windows_surface(), PixelBufferFormatType::BGRA),
        (web_surface(), PixelBufferFormatType::RGBA),
    ] {
        let mut buf = PixelBuffer::new(2, 3, format, &surface).unwrap();
        {
            let mut rows = buf.rows_mut();
            assert_eq!(rows.len(), 3);
            rows[1][0] = 42;
            rows[2][7] = 9;
        }
        assert_eq!(buf.row(1).unwrap()[0], 42);
        assert_eq!(buf.row(2).unwrap()[7], 9);
        assert_eq!(buf.row(0).unwrap(), &[0u8; 8][..]);
    }
}

#[test]
fn rows_come_top_down() {
    let mut buf = PixelBuffer::new(1, 3, PixelBufferFormatType::BGRA, &windows_surface()).unwrap();
    for i in 0..3u32 {
        buf.row_mut(i).unwrap()[0] = i as u8 + 10;
    }
    let firsts: Vec<u8> = buf.rows().iter().map(|r| r[0]).collect();
    assert_eq!(firsts, vec![10, 11, 12]);
    let firsts_mut: Vec<u8> = buf.rows_mut().iter().map(|r| r[0]).collect();
    assert_eq!(firsts_mut, vec![10, 11, 12]);
}

#[test]
fn out_of_range_rows_are_absent() {
    let mut buf = PixelBuffer::new(2, 2, PixelBufferFormatType::BGRA, &windows_surface()).unwrap();
    assert!(buf.row(2).is_none());
    assert!(buf.row(u32::MAX).is_none());
    assert!(buf.row_mut(2).is_none());
    assert_eq!(buf.row_count(), 2);
}

#[test]
fn degenerate_buffer_is_empty_and_blit_does_nothing() {
    for (surface, format) in [
        (windows_surface(), PixelBufferFormatType::BGRA),
        (web_surface(), PixelBufferFormatType::RGBA),
    ] {
        let mut buf = PixelBuffer::new(0, 5, format, &surface).unwrap();
        assert_eq!(buf.width(), 0);
        assert_eq!(buf.height(), 5);
        assert!(buf.rows().is_empty());
        assert!(buf.rows_mut().is_empty());
        assert!(buf.row(0).is_none());
        assert!(buf.bytes().is_empty());
        let calls = Cell::new(0);
        let r: Result<(), String> = buf.blit(&surface, |_, _| {
            calls.set(calls.get() + 1);
            Err("copied".to_string())
        });
        assert!(r.is_ok());
        assert_eq!(calls.get(), 0);
        let flat = PixelBuffer::new(5, 0, format, &surface).unwrap();
        assert!(flat.rows().is_empty());
        let r: Result<(), String> =
            flat.blit_rect((0, 0), (1, 1), (2, 2), &surface, |_, _| Err("copied".to_string()));
        assert!(r.is_ok());
    }
}

#[test]
fn blit_copies_two_by_two_bgra_once() {
    let s = windows_surface();
    let mut buf = PixelBuffer::new(2, 2, PixelBufferFormatType::BGRA, &s).unwrap();
    buf.row_mut(0).unwrap().copy_from_slice(&[0, 0, 255, 255, 0, 255, 0, 255]);
    buf.row_mut(1).unwrap().copy_from_slice(&[255, 0, 0, 255, 0, 0, 0, 255]);
    assert_eq!(
        buf.bytes(),
        &[255, 0, 0, 255, 0, 0, 0, 255, 0, 0, 255, 255, 0, 255, 0, 255][..]
    );

    let calls = Cell::new(0);
    let seen = Cell::new(None);
    let ok: Result<(), i32> = buf.blit(&s, |b, rect| {
        calls.set(calls.get() + 1);
        seen.set(Some(rect));
        assert_eq!(b.row(0).unwrap(), &[0, 0, 255, 255, 0, 255, 0, 255][..]);
        Ok(())
    });
    assert_eq!(ok, Ok(()));
    assert_eq!(calls.get(), 1);
    assert_eq!(
        seen.get(),
        Some(BlitRect { src_x: 0, src_y: 0, dst_x: 0, dst_y: 0, width: 2, height: 2 })
    );

    let failed: Result<(), i32> = buf.blit(&s, |_, _| Err(1400));
    assert_eq!(failed, Err(1400));
}

#[test]
fn blit_rect_hands_over_the_rectangle() {
    let s = web_surface();
    let buf = PixelBuffer::new(8, 8, PixelBufferFormatType::RGBA, &s).unwrap();
    let seen = Cell::new(None);
    let r: Result<(), ()> = buf.blit_rect((1, 2), (3, 4), (5, 6), &s, |_, rect| {
        seen.set(Some(rect));
        Ok(())
    });
    assert_eq!(r, Ok(()));
    assert_eq!(
        seen.get(),
        Some(BlitRect { src_x: 1, src_y: 2, dst_x: 3, dst_y: 4, width: 5, height: 6 })
    );
}

#[test]
fn platforms_describe_their_bitmaps() {
    assert_eq!(Platform::Windows.native_format(), PixelBufferFormatType::BGRA);
    assert_eq!(Platform::Web.native_format(), PixelBufferFormatType::RGBA);
    assert!(Platform::Windows.bottom_up());
    assert!(!Platform::Web.bottom_up());
    assert!(Platform::Windows.supports(PixelBufferFormatType::BGR));
    assert!(!Platform::Web.supports(PixelBufferFormatType::BGR));
    assert_eq!(windows_surface().platform(), Platform::Windows);
    assert_eq!(web_surface().platform(), Platform::Web);
    let l = Platform::Windows.layout(5, 2, PixelBufferFormatType::BGR);
    assert_eq!(l.row_stride, 16);
    assert_eq!(l.pixel_len(), 15);
    let flat = Platform::Windows.layout(5, 0, PixelBufferFormatType::BGR);
    assert_eq!(flat.row_stride, 15);
    assert_eq!(PixelBufferFormatType::RGB.bytes_per_pixel(), 3);
    assert_eq!(PixelBufferFormatType::RGBA.bits_per_pixel(), 32);
}

#[test]
fn bytes_mut_writes_storage_directly() {
    let mut buf = PixelBuffer::new(1, 2, PixelBufferFormatType::BGRA, &windows_surface()).unwrap();
    buf.bytes_mut()[0] = 77;
    assert_eq!(buf.row(1).unwrap()[0], 77);
}
