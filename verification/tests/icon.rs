use windows_tray::icon::{header_of, IconBuild};
use windows_tray::pixels::BgraImage;
use windows_tray::system::{BitmapHeader, BI_BITFIELDS};
use windows_tray::{Reply, Step, SystemCall, WindowsTrayError};

fn image() -> BgraImage {
    BgraImage { width: 2, height: 1, pixels: vec![1, 2, 3, 4, 5, 6, 7, 8] }
}

/// Runs the making of an icon with replies, and gives the calls and the result.
fn run(replies: &[Reply]) -> (Vec<SystemCall>, Result<usize, WindowsTrayError>) {
    let mut build = IconBuild::new(Ok(image()));
    let mut calls: Vec<SystemCall> = Vec::new();
    let mut left = replies.iter();
    loop {
        match build.next() {
            Step::Call(call) => {
                assert!(build.result().is_none());
                calls.push(call);
                build.reply(*left.next().unwrap());
            }
            Step::Done(result) => {
                assert!(left.next().is_none());
                assert_eq!(build.result(), Some(result));
                return (calls, result);
            }
        }
    }
}

#[test]
fn the_header_describes_a_bitmap_from_the_top_down() {
    assert_eq!(
        header_of(16, 9),
        BitmapHeader {
            width: 16,
            height: -9,
            planes: 1,
            bit_count: 32,
            compression: BI_BITFIELDS,
            red_mask: 0x00FF0000,
            green_mask: 0x0000FF00,
            blue_mask: 0x000000FF,
            alpha_mask: 0xFF000000,
            image_size: 576,
        }
    );
}

#[test]
fn an_icon_is_made_and_the_rest_given_back() {
    let (calls, result) = run(&[
        Reply::Handle(10),
        Reply::Section { bitmap: 20, bits: 30 },
        Reply::Done,
        Reply::Done,
        Reply::Handle(40),
        Reply::Handle(50),
        Reply::Done,
        Reply::Done,
    ]);
    assert_eq!(result, Ok(50));
    assert_eq!(
        calls,
        vec![
            SystemCall::GetDc,
            SystemCall::CreateSection { dc: 10, header: header_of(2, 1) },
            SystemCall::ReleaseDc { dc: 10 },
            SystemCall::CopyPixels { bits: 30, pixels: vec![1, 2, 3, 4, 5, 6, 7, 8] },
            SystemCall::CreateMask { width: 2, height: 1 },
            SystemCall::CreateIcon { mask: 40, color: 20 },
            SystemCall::DeleteObject { object: 20 },
            SystemCall::DeleteObject { object: 40 },
        ]
    );
}

#[test]
fn without_a_bitmap_only_the_screen_is_given_back() {
    let (calls, result) = run(&[
        Reply::Handle(10),
        Reply::Section { bitmap: 0, bits: 0 },
        Reply::Done,
    ]);
    assert_eq!(result, Err(WindowsTrayError::BadIcon));
    assert_eq!(calls.len(), 3);
    assert_eq!(calls[2], SystemCall::ReleaseDc { dc: 10 });
}

#[test]
fn without_a_place_for_pixels_there_is_no_icon() {
    let (calls, result) = run(&[
        Reply::Handle(10),
        Reply::Section { bitmap: 20, bits: 0 },
        Reply::Done,
    ]);
    assert_eq!(result, Err(WindowsTrayError::BadIcon));
    assert_eq!(calls.len(), 3);
}

#[test]
fn without_a_mask_the_bitmap_is_given_back() {
    let (calls, result) = run(&[
        Reply::Handle(10),
        Reply::Section { bitmap: 20, bits: 30 },
        Reply::Done,
        Reply::Done,
        Reply::Handle(0),
        Reply::Done,
    ]);
    assert_eq!(result, Err(WindowsTrayError::BadIcon));
    assert_eq!(calls[5], SystemCall::DeleteObject { object: 20 });
}

#[test]
fn without_an_icon_both_bitmaps_are_given_back() {
    let (calls, result) = run(&[
        Reply::Handle(10),
        Reply::Section { bitmap: 20, bits: 30 },
        Reply::Done,
        Reply::Done,
        Reply::Handle(40),
        Reply::Handle(0),
        Reply::Done,
        Reply::Done,
    ]);
    assert_eq!(result, Err(WindowsTrayError::BadIcon));
    assert_eq!(calls[6], SystemCall::DeleteObject { object: 20 });
    assert_eq!(calls[7], SystemCall::DeleteObject { object: 40 });
}

#[test]
fn without_a_screen_the_bitmap_is_asked_for_all_the_same() {
    let mut build = IconBuild::new(Ok(image()));
    build.reply(Reply::Handle(0));
    match build.next() {
        Step::Call(call) => {
            assert_eq!(call, SystemCall::CreateSection { dc: 0, header: header_of(2, 1) });
        }
        Step::Done(_) => panic!("ended early"),
    }
}

#[test]
fn without_an_image_nothing_is_asked_for() {
    let mut build = IconBuild::new(Err(WindowsTrayError::BadIcon));
    assert_eq!(build.result(), Some(Err(WindowsTrayError::BadIcon)));
    build.reply(Reply::Handle(1));
    match build.next() {
        Step::Done(result) => assert_eq!(result, Err(WindowsTrayError::BadIcon)),
        Step::Call(_) => panic!("nothing is to be made"),
    }
}

#[test]
fn a_reply_after_the_end_changes_nothing() {
    let mut build = IconBuild::new(Ok(image()));
    build.reply(Reply::Handle(10));
    build.reply(Reply::Section { bitmap: 0, bits: 0 });
    build.reply(Reply::Done);
    build.reply(Reply::Handle(99));
    assert_eq!(build.result(), Some(Err(WindowsTrayError::BadIcon)));
}

#[test]
fn an_image_fits_where_its_size_does() {
    assert!(image().fits());
    let large = BgraImage { width: 0x8000, height: 0x8000, pixels: vec![] };
    assert!(!large.fits());
    let just = BgraImage { width: 0x7FFF, height: 0x8000, pixels: vec![] };
    assert!(just.fits());
    let overflow = BgraImage { width: 0xFFFF_FFFF, height: 0xFFFF_FFFF, pixels: vec![] };
    assert!(!overflow.fits());
    let flat = BgraImage { width: 3, height: 0, pixels: vec![] };
    assert!(!flat.fits());
    let overfull = BgraImage { width: 1, height: 1, pixels: vec![0; 5] };
    assert!(!overfull.fits());
}

#[test]
fn pixels_fill_the_bitmap_exactly() {
    let drawn = image();
    let header = header_of(drawn.width, drawn.height);
    assert_eq!(drawn.pixels.len(), header.image_size as usize);
}
