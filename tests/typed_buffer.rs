use winit_blit::{
    PixelBufferCreationError, PixelBufferFormat, PixelBufferFormatType, PixelBufferTyped, PixelRow,
    PixelRowMut, SurfaceHandle, BGR, BGRA, RGB, RGBA,
};

fn windows_surface() -> SurfaceHandle {
    SurfaceHandle::Windows { hwnd: 99 }
}

fn web_surface() -> SurfaceHandle {
    SurfaceHandle::Web { id: 3 }
}

#[test]
fn typed_write_reads_back_as_raw_channel_bytes() {
    let mut buf = PixelBufferTyped::<BGRA>::new(2, 2, &windows_surface()).unwrap();
    {
        let mut row = buf.row_mut(1).unwrap();
        assert_eq!(row.len(), 2);
        row.set(0, BGRA::new(1, 2, 3, 4));
        row.set(1, BGRA::from_rgb(10, 20, 30));
    }
    assert_eq!(buf.raw().row(1).unwrap(), &[1, 2, 3, 4, 30, 20, 10, 255][..]);
    assert_eq!(buf.raw().row(0).unwrap(), &[0u8; 8][..]);
    let row = buf.row(1).unwrap();
    assert_eq!(row.get(0), Some(BGRA { b: 1, g: 2, r: 3, a: 4 }));
    assert_eq!(row.get(1), Some(BGRA { b: 30, g: 20, r: 10, a: 255 }));
    assert_eq!(row.get(2), None);

    let mut web = PixelBufferTyped::<RGBA>::new(1, 1, &web_surface()).unwrap();
    web.row_mut(0).unwrap().set(0, RGBA::new(5, 6, 7, 8));
    assert_eq!(web.raw().row(0).unwrap(), &[5, 6, 7, 8][..]);
}

#[test]
fn typed_bgr_rows_skip_padding() {
    let mut buf = PixelBufferTyped::<BGR>::new(3, 2, &windows_surface()).unwrap();
    assert_eq!(buf.row_len(), 12);
    assert_eq!(buf.bytes_per_pixel(), 3);
    assert_eq!(buf.bits_per_pixel(), 24);
    for mut row in buf.rows_mut() {
        assert_eq!(row.len(), 3);
        for j in 0..3 {
            row.set(j, BGR::from_rgb(9, 8, 7));
        }
    }
    let bytes = buf.raw().bytes();
    assert_eq!(&bytes[0..12], &[7, 8, 9, 7, 8, 9, 7, 8, 9, 0, 0, 0]);
    let rows = buf.rows();
    assert_eq!(rows.len(), 2);
    assert_eq!(rows[0].get(2), Some(BGR { b: 7, g: 8, r: 9 }));
}

#[test]
fn typed_rows_mut_keep_top_down_order() {
    let mut buf = PixelBufferTyped::<BGRA>::new(1, 3, &windows_surface()).unwrap();
    for (i, mut row) in buf.rows_mut().into_iter().enumerate() {
        row.set(0, BGRA::new(i as u8, 0, 0, 255));
    }
    for i in 0..3u32 {
        assert_eq!(buf.row(i).unwrap().get(0).unwrap().b, i as u8);
        assert_eq!(buf.raw().row(i).unwrap()[0], i as u8);
    }
    assert_eq!(buf.raw().bytes()[0], 2);
}

#[test]
fn typed_creation_follows_platform_support() {
    assert!(matches!(
        PixelBufferTyped::<RGBA>::new(2, 2, &windows_surface()),
        Err(PixelBufferCreationError::FormatNotSupported)
    ));
    assert!(matches!(
        PixelBufferTyped::<RGB>::new(2, 2, &web_surface()),
        Err(PixelBufferCreationError::FormatNotSupported)
    ));
    let b = PixelBufferTyped::<BGRA>::new_supported(4, 3, &windows_surface());
    assert_eq!((b.width(), b.height()), (4, 3));
    let w = PixelBufferTyped::<RGBA>::new_supported(4, 3, &web_surface());
    assert_eq!(w.raw().format(), PixelBufferFormatType::RGBA);
}

#[test]
fn typed_degenerate_buffer() {
    let buf = PixelBufferTyped::<RGBA>::new(0, 5, &web_surface()).unwrap();
    assert!(buf.rows().is_empty());
    assert!(buf.row(0).is_none());
    let r: Result<(), ()> = buf.blit(&web_surface(), |_, _| panic!("nothing to copy"));
    assert!(r.is_ok());
}

#[test]
fn typed_blit_forwards_native_result() {
    let s = windows_surface();
    let buf = PixelBufferTyped::<BGR>::new(2, 1, &s).unwrap();
    let r: Result<(), &str> = buf.blit(&s, |raw, rect| {
        assert_eq!(raw.width(), 2);
        assert_eq!((rect.width, rect.height), (2, 1));
        Err("device lost")
    });
    assert_eq!(r, Err("device lost"));
    let r: Result<(), &str> = buf.blit_rect((1, 0), (0, 0), (1, 1), &s, |_, rect| {
        assert_eq!(rect.src_x, 1);
        Ok(())
    });
    assert_eq!(r, Ok(()));
}

#[test]
fn pixel_constructors_use_channel_order() {
    assert_eq!(BGR::from_rgb(1, 2, 3), BGR { b: 3, g: 2, r: 1 });
    assert_eq!(RGB::from_rgb(1, 2, 3), RGB { r: 1, g: 2, b: 3 });
    assert_eq!(BGRA::from_rgb(1, 2, 3), BGRA { b: 3, g: 2, r: 1, a: 255 });
    assert_eq!(RGBA::from_rgb(1, 2, 3), RGBA { r: 1, g: 2, b: 3, a: 255 });
    assert_eq!(BGRA::default(), BGRA::new(0, 0, 0, 255));
    assert_eq!(RGBA::default_pixel(), RGBA::new(0, 0, 0, 255));
    assert_eq!(BGR::default(), BGR::new(0, 0, 0));
    assert_eq!(RGB::default_pixel(), RGB::new(0, 0, 0));
    assert_eq!(BGR::format_type(), PixelBufferFormatType::BGR);
    assert_eq!(RGBA::format_type(), PixelBufferFormatType::RGBA);
}

#[test]
fn pixels_read_and_write_their_bytes() {
    let raw = [9u8, 1, 2, 3, 4, 5];
    assert_eq!(RGB::read_from(&raw, 1), RGB { r: 1, g: 2, b: 3 });
    assert_eq!(BGRA::read_from(&raw, 2), BGRA { b: 2, g: 3, r: 4, a: 5 });
    let mut out = [0u8; 5];
    RGBA::new(1, 2, 3, 4).write_to(&mut out, 1);
    assert_eq!(out, [0, 1, 2, 3, 4]);
    BGR::new(7, 8, 9).write_to(&mut out, 0);
    assert_eq!(out, [7, 8, 9, 3, 4]);
}

#[test]
fn raw_slices_view_as_pixels_in_place() {
    let raw = [1u8, 2, 3, 4, 5, 6];
    let row: PixelRow<RGB> = PixelRow::from_raw_slice(&raw);
    assert_eq!(row.len(), 2);
    assert_eq!(row.get(1), Some(RGB::new(4, 5, 6)));
    assert_eq!(row.to_raw_slice(), &raw[..]);
    let mut bytes = [0u8; 8];
    {
        let mut view: PixelRowMut<BGRA> = PixelRowMut::from_raw_slice_mut(&mut bytes);
        view.set(1, BGRA::new(1, 2, 3, 4));
        assert_eq!(view.get(1), Some(BGRA::new(1, 2, 3, 4)));
        view.to_raw_slice_mut()[0] = 8;
    }
    assert_eq!(bytes, [8, 0, 0, 0, 1, 2, 3, 4]);
}

#[test]
fn pixels_convert_to_and_from_byte_arrays() {
    let p = BGRA::from([1u8, 2, 3, 4]);
    assert_eq!(p, BGRA { b: 1, g: 2, r: 3, a: 4 });
    assert_eq!(<[u8; 4]>::from(p), [1, 2, 3, 4]);
    let q = RGB::from([7u8, 8, 9]);
    assert_eq!(q, RGB { r: 7, g: 8, b: 9 });
    assert_eq!(<[u8; 3]>::from(q), [7, 8, 9]);
    assert_eq!(<[u8; 3]>::from(BGR::from_rgb(1, 2, 3)), [3, 2, 1]);
    assert_eq!(<[u8; 4]>::from(RGBA::from_rgb(1, 2, 3)), [1, 2, 3, 255]);
}
