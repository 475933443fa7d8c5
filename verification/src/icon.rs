//! Making a system icon of an image.

use vstd::prelude::*;

use crate::error::WindowsTrayError;
use crate::ledger::Resource;
use crate::pixels::{BgraImage, BgraView};
use crate::system::{BitmapHeader, CallView, Reply, Step, SystemCall, BI_BITFIELDS};

verus! {

/// Whether a bitmap of a width and a height, four bytes to a pixel, has pixels,
/// a size that fits its header, and no more bytes than can be kept together.
pub open spec fn bitmap_fits(width: u32, height: u32) -> bool {
    &&& width > 0
    &&& height > 0
    &&& width * height * 4 <= u32::MAX
    &&& width * height * 4 <= isize::MAX
}

/// Whether an image makes a bitmap: its size fits the header, and its pixels
/// fit the bitmap.
pub open spec fn image_fits(image: BgraView) -> bool {
    &&& bitmap_fits(image.width, image.height)
    &&& image.pixels.len() <= image.width * image.height * 4
}

/// The layout of a bitmap of 32-bit pixels. A negative height puts the first
/// line of pixels at the top.
pub open spec fn bitmap_header(width: u32, height: u32) -> BitmapHeader {
    BitmapHeader {
        width: width as i32,
        height: (-(height as int)) as i32,
        planes: 1,
        bit_count: 32,
        compression: BI_BITFIELDS,
        red_mask: 0x00FF0000,
        green_mask: 0x0000FF00,
        blue_mask: 0x000000FF,
        alpha_mask: 0xFF000000,
        image_size: (width * height * 4) as u32,
    }
}

/// An icon in the making: the image, or why there is none, and the replies to
/// the calls made so far.
pub struct IconRun {
    pub image: Result<BgraView, WindowsTrayError>,
    pub replies: Seq<Reply>,
}

impl IconRun {
    /// The handle in a reply.
    pub open spec fn handle(self, i: int) -> usize {
        self.replies[i].handle_spec()
    }

    /// The bitmap that holds the colours.
    pub open spec fn color(self) -> usize {
        self.replies[1].bitmap_spec()
    }

    /// Whether the system gave no bitmap, or no place for its pixels.
    pub open spec fn no_section(self) -> bool {
        self.replies[1].bitmap_spec() == 0 || self.replies[1].bits_spec() == 0
    }

    /// The next call, if there is one.
    pub open spec fn call(self) -> Option<CallView> {
        let made = self.replies.len();
        if self.image is Err {
            None
        } else if made == 0 {
            Some(CallView::GetDc)
        } else if made == 1 {
            Some(
                CallView::CreateSection {
                    dc: self.handle(0),
                    header: bitmap_header(self.image->Ok_0.width, self.image->Ok_0.height),
                },
            )
        } else if made == 2 {
            Some(CallView::ReleaseDc { dc: self.handle(0) })
        } else if self.no_section() {
            None
        } else if made == 3 {
            Some(
                CallView::CopyPixels {
                    bits: self.replies[1].bits_spec(),
                    pixels: self.image->Ok_0.pixels,
                },
            )
        } else if made == 4 {
            Some(
                CallView::CreateMask {
                    width: self.image->Ok_0.width as i32,
                    height: self.image->Ok_0.height as i32,
                },
            )
        } else if self.handle(4) == 0 {
            if made == 5 {
                Some(CallView::DeleteObject { object: self.color() })
            } else {
                None
            }
        } else if made == 5 {
            Some(CallView::CreateIcon { mask: self.handle(4), color: self.color() })
        } else if made == 6 {
            Some(CallView::DeleteObject { object: self.color() })
        } else if made == 7 {
            Some(CallView::DeleteObject { object: self.handle(4) })
        } else {
            None
        }
    }

    /// What the making of the icon comes to, once there is no next call.
    pub open spec fn outcome(self) -> Result<usize, WindowsTrayError> {
        match self.image {
            Err(error) => Err(error),
            Ok(_) => if self.no_section() || self.handle(4) == 0 || self.handle(5) == 0 {
                Err(WindowsTrayError::BadIcon)
            } else {
                Ok(self.handle(5))
            },
        }
    }

    /// How many calls the making of the icon takes.
    pub open spec fn span(self) -> int {
        if self.image is Err {
            0
        } else if self.no_section() {
            3
        } else if self.handle(4) == 0 {
            6
        } else {
            8
        }
    }

    /// The call that is made after each sequence of replies.
    pub open spec fn calls(self) -> spec_fn(Seq<Reply>) -> Option<CallView> {
        |replies: Seq<Reply>| IconRun { replies, ..self }.call()
    }

    /// The run after one more reply.
    pub open spec fn after(self, reply: Reply) -> IconRun {
        if self.call() is None {
            self
        } else {
            IconRun { replies: self.replies.push(reply), ..self }
        }
    }
}

/// What remains to be done for an icon.
#[derive(Clone, Copy)]
enum IconStage {
    TakeDc,
    TakeSection { dc: usize },
    ReturnDc { dc: usize, bitmap: usize, bits: usize },
    Fill { bitmap: usize, bits: usize },
    TakeMask { bitmap: usize },
    GiveUp { bitmap: usize },
    TakeIcon { bitmap: usize, mask: usize },
    DropColor { bitmap: usize, mask: usize, icon: usize },
    DropMask { mask: usize, icon: usize },
    Ended { result: Result<usize, WindowsTrayError> },
}

/// The making of a system icon.
pub struct IconBuild {
    width: u32,
    height: u32,
    pixels: Vec<u8>,
    stage: IconStage,
    run: Ghost<IconRun>,
}

impl View for IconBuild {
    type V = IconRun;

    closed spec fn view(&self) -> IconRun {
        self.run@
    }
}

impl IconBuild {
    /// Whether the stage is the one that the replies lead to.
    pub closed spec fn wf(&self) -> bool {
        let run = self@;
        let made = run.replies.len();
        &&& self.stage is Ended || run.image == Ok::<BgraView, WindowsTrayError>(self.drawn())
        &&& self.stage is Ended || image_fits(self.drawn())
        &&& match self.stage {
            IconStage::TakeDc => made == 0,
            IconStage::TakeSection { dc } => made == 1 && dc == run.handle(0),
            IconStage::ReturnDc { dc, bitmap, bits } => {
                &&& made == 2
                &&& dc == run.handle(0)
                &&& bitmap == run.color()
                &&& bits == run.replies[1].bits_spec()
            },
            IconStage::Fill { bitmap, bits } => {
                &&& made == 3
                &&& !run.no_section()
                &&& bitmap == run.color()
                &&& bits == run.replies[1].bits_spec()
            },
            IconStage::TakeMask { bitmap } => {
                &&& made == 4
                &&& !run.no_section()
                &&& bitmap == run.color()
            },
            IconStage::GiveUp { bitmap } => {
                &&& made == 5
                &&& !run.no_section()
                &&& bitmap == run.color()
                &&& run.handle(4) == 0
            },
            IconStage::TakeIcon { bitmap, mask } => {
                &&& made == 5
                &&& !run.no_section()
                &&& bitmap == run.color()
                &&& mask == run.handle(4)
                &&& mask != 0
            },
            IconStage::DropColor { bitmap, mask, icon } => {
                &&& made == 6
                &&& !run.no_section()
                &&& bitmap == run.color()
                &&& mask == run.handle(4)
                &&& mask != 0
                &&& icon == run.handle(5)
            },
            IconStage::DropMask { mask, icon } => {
                &&& made == 7
                &&& !run.no_section()
                &&& mask == run.handle(4)
                &&& mask != 0
                &&& icon == run.handle(5)
            },
            IconStage::Ended { result } => {
                &&& run.call() is None
                &&& made == run.span()
                &&& result == run.outcome()
            },
        }
    }

    /// The image that the icon is made of.
    spec fn drawn(&self) -> BgraView {
        BgraView { width: self.width, height: self.height, pixels: self.pixels@ }
    }

    /// Starts to make an icon of an image. Where there is no image, there is
    /// nothing to make.
    pub fn new(image: Result<BgraImage, WindowsTrayError>) -> (build: IconBuild)
        requires
            image matches Ok(drawn) ==> image_fits(drawn@),
        ensures
            build.wf(),
            build@ == (IconRun {
                image: crate::pixels::image_view(image),
                replies: Seq::empty(),
            }),
    {
        let ghost run = IconRun {
            image: crate::pixels::image_view(image),
            replies: Seq::empty(),
        };
        match image {
            Ok(drawn) => IconBuild {
                width: drawn.width,
                height: drawn.height,
                pixels: drawn.pixels,
                stage: IconStage::TakeDc,
                run: Ghost(run),
            },
            Err(error) => IconBuild {
                width: 0,
                height: 0,
                pixels: Vec::new(),
                stage: IconStage::Ended { result: Err(error) },
                run: Ghost(run),
            },
        }
    }

    /// What comes next: a call, or the icon.
    pub fn next(&self) -> (step: Step<Result<usize, WindowsTrayError>>)
        requires
            self.wf(),
        ensures
            match step {
                Step::Call(call) => self@.call() == Some(call@),
                Step::Done(result) => self@.call() is None && result == self@.outcome(),
            },
    {
        match self.stage {
            IconStage::TakeDc => Step::Call(SystemCall::GetDc),
            IconStage::TakeSection { dc } => {
                let header = header_of(self.width, self.height);
                Step::Call(SystemCall::CreateSection { dc, header })
            },
            IconStage::ReturnDc { dc, bitmap: _, bits: _ } => Step::Call(
                SystemCall::ReleaseDc { dc },
            ),
            IconStage::Fill { bitmap: _, bits } => {
                let pixels: Vec<u8> = self.pixels.clone();
                Step::Call(SystemCall::CopyPixels { bits, pixels })
            },
            IconStage::TakeMask { bitmap: _ } => {
                Step::Call(
                    SystemCall::CreateMask {
                        width: self.width as i32,
                        height: self.height as i32,
                    },
                )
            },
            IconStage::GiveUp { bitmap } => Step::Call(
                SystemCall::DeleteObject { object: bitmap },
            ),
            IconStage::TakeIcon { bitmap, mask } => Step::Call(
                SystemCall::CreateIcon { mask, color: bitmap },
            ),
            IconStage::DropColor { bitmap, mask: _, icon: _ } => Step::Call(
                SystemCall::DeleteObject { object: bitmap },
            ),
            IconStage::DropMask { mask, icon: _ } => Step::Call(
                SystemCall::DeleteObject { object: mask },
            ),
            IconStage::Ended { result } => Step::Done(result),
        }
    }

    /// The icon, or why there is none, once it is known.
    pub fn result(&self) -> (result: Option<Result<usize, WindowsTrayError>>)
        requires
            self.wf(),
        ensures
            match result {
                Some(known) => {
                    &&& self@.call() is None
                    &&& self@.replies.len() == self@.span()
                    &&& known == self@.outcome()
                },
                None => self@.call() is Some,
            },
    {
        match self.stage {
            IconStage::Ended { result } => Some(result),
            _ => None,
        }
    }

    /// Takes the reply to the call that `next` gave.
    pub fn reply(&mut self, reply: Reply)
        requires
            old(self).wf(),
        ensures
            final(self).wf(),
            final(self)@ == old(self)@.after(reply),
    {
        let stage = match self.stage {
            IconStage::TakeDc => IconStage::TakeSection { dc: reply.handle() },
            IconStage::TakeSection { dc } => IconStage::ReturnDc {
                dc,
                bitmap: reply.bitmap(),
                bits: reply.bits(),
            },
            IconStage::ReturnDc { dc: _, bitmap, bits } => if bitmap == 0 || bits == 0 {
                IconStage::Ended { result: Err(WindowsTrayError::BadIcon) }
            } else {
                IconStage::Fill { bitmap, bits }
            },
            IconStage::Fill { bitmap, bits: _ } => IconStage::TakeMask { bitmap },
            IconStage::TakeMask { bitmap } => {
                let mask: usize = reply.handle();
                if mask == 0 {
                    IconStage::GiveUp { bitmap }
                } else {
                    IconStage::TakeIcon { bitmap, mask }
                }
            },
            IconStage::GiveUp { bitmap: _ } => IconStage::Ended { result: Err(WindowsTrayError::BadIcon) },
            IconStage::TakeIcon { bitmap, mask } => IconStage::DropColor {
                bitmap,
                mask,
                icon: reply.handle(),
            },
            IconStage::DropColor { bitmap: _, mask, icon } => IconStage::DropMask { mask, icon },
            IconStage::DropMask { mask: _, icon } => if icon == 0 {
                IconStage::Ended { result: Err(WindowsTrayError::BadIcon) }
            } else {
                IconStage::Ended { result: Ok(icon) }
            },
            IconStage::Ended { result: _ } => return,
        };
        self.stage = stage;
        self.run = Ghost(self.run@.after(reply));
    }
}

/// The layout of a bitmap of 32-bit pixels.
pub fn header_of(width: u32, height: u32) -> (header: BitmapHeader)
    requires
        bitmap_fits(width, height),
    ensures
        header == bitmap_header(width, height),
{
    proof {
        lemma_sides(width, height);
    }
    let image_size: u32 = width * height * 4;
    BitmapHeader {
        width: width as i32,
        height: -(height as i32),
        planes: 1,
        bit_count: 32,
        compression: BI_BITFIELDS,
        red_mask: 0x00FF0000,
        green_mask: 0x0000FF00,
        blue_mask: 0x000000FF,
        alpha_mask: 0xFF000000,
        image_size,
    }
}

/// Each side of a bitmap that fits is a signed 32-bit number.
proof fn lemma_sides(width: u32, height: u32)
    requires
        bitmap_fits(width, height),
    ensures
        width <= width * height,
        height <= width * height,
{
    assert(width <= width * height && height <= width * height) by (nonlinear_arith)
        requires
            width > 0,
            height > 0,
    ;
}

/// Whether a bitmap of a width and a height can be made.
pub fn fits(width: u32, height: u32) -> (answer: bool)
    ensures
        answer == bitmap_fits(width, height),
{
    assert(0 <= width * height <= 0xFFFF_FFFF * 0xFFFF_FFFF) by (nonlinear_arith)
        requires
            0 <= width <= 0xFFFF_FFFF,
            0 <= height <= 0xFFFF_FFFF,
    ;
    let area: u64 = width as u64 * height as u64;
    if width == 0 || height == 0 || area > 0x3FFF_FFFF {
        return false;
    }
    area * 4 <= isize::MAX as u64
}

impl BgraImage {
    /// Whether the image makes a bitmap.
    pub fn fits(&self) -> (answer: bool)
        ensures
            answer == image_fits(self@),
    {
        fits(self.width, self.height) && self.pixels.len() as u64 <= self.width as u64
            * self.height as u64 * 4
    }
}

/// A resource that there is only where its handle is not null.
spec fn unless_null(handle: usize, resource: Resource) -> Option<Resource> {
    if handle == 0 {
        None
    } else {
        Some(resource)
    }
}

/// How often a resource is held while an icon is made.
pub(crate) closed spec fn held_on_the_way(run: IconRun, resource: Resource) -> int {
    let made = run.replies.len();
    let dc = if 1 <= made < 3 {
        unless_null(run.handle(0), Resource::Dc(run.handle(0)))
    } else {
        None
    };
    let color = if made >= 2 && !run.no_section() && (made < 6 || made == 6 && run.handle(4) != 0) {
        Some(Resource::Object(run.color()))
    } else {
        None
    };
    let mask = if 5 <= made < 8 {
        unless_null(run.handle(4), Resource::Object(run.handle(4)))
    } else {
        None
    };
    let icon = if made >= 6 && run.handle(4) != 0 {
        unless_null(run.handle(5), Resource::Icon(run.handle(5)))
    } else {
        None
    };
    crate::ledger::only(dc, resource) + crate::ledger::only(color, resource) + crate::ledger::only(
        mask,
        resource,
    ) + crate::ledger::only(icon, resource)
}

/// What the making of an icon leaves.
pub open spec fn icon_left(run: IconRun) -> Option<Resource> {
    match run.outcome() {
        Ok(icon) => Some(Resource::Icon(icon)),
        Err(_) => None,
    }
}

/// Replies that come after an icon is made are not for it.
pub(crate) proof fn lemma_icon_later(run: IconRun, reply: Reply)
    requires
        run.call() is None,
        run.replies.len() >= run.span(),
    ensures
        ({
            let longer = IconRun { replies: run.replies.push(reply), ..run };
            &&& longer.call() is None
            &&& longer.span() == run.span()
            &&& longer.outcome() == run.outcome()
            &&& longer.replies.skip(longer.span()) == run.replies.skip(run.span()).push(reply)
        }),
{
    let longer = IconRun { replies: run.replies.push(reply), ..run };
    assert(longer.replies.skip(run.span()) =~= run.replies.skip(run.span()).push(reply));
}

/// Nothing is held before the first call for an icon.
pub(crate) proof fn lemma_icon_start(run: IconRun, resource: Resource)
    requires
        run.replies.len() == 0,
    ensures
        held_on_the_way(run, resource) == 0,
{
}

/// How one call for an icon changes what is held.
pub(crate) proof fn lemma_icon_step(run: IconRun, reply: Reply, resource: Resource)
    requires
        run.call() is Some,
    ensures
        held_on_the_way(run.after(reply), resource) == held_on_the_way(run, resource)
            + crate::ledger::held_change(run.call()->0, reply, resource),
        run.after(reply).replies.len() <= run.after(reply).span(),
{
}

/// What is held after the last call for an icon.
pub(crate) proof fn lemma_icon_end(run: IconRun, resource: Resource)
    requires
        run.call() is None,
        run.replies.len() == run.span(),
    ensures
        held_on_the_way(run, resource) == crate::ledger::only(icon_left(run), resource),
{
}

proof fn lemma_icon_held(run: IconRun, resource: Resource)
    requires
        crate::ledger::answered(run.calls(), run.replies),
    ensures
        crate::ledger::held(crate::ledger::trace(run.calls(), run.replies), resource)
            == held_on_the_way(run, resource),
        run.call() is None ==> run.replies.len() == run.span(),
    decreases run.replies.len(),
{
    let calls = run.calls();
    if run.replies.len() > 0 {
        let shorter = IconRun { replies: run.replies.drop_last(), ..run };
        let last = run.replies.last();
        assert(run.replies =~= shorter.replies.push(last));
        assert(shorter.calls() =~= calls);
        crate::ledger::lemma_trace_push(calls, shorter.replies, last);
        lemma_icon_held(shorter, resource);
        lemma_icon_step(shorter, last, resource);
        crate::ledger::lemma_held_push(
            crate::ledger::trace(calls, shorter.replies),
            shorter.call()->0,
            last,
            resource,
        );
    }
}

/// The making of an icon leaves the icon, if there is one, and nothing else, but
/// for a bitmap that has no place for its pixels.
pub proof fn law_only_the_icon_is_left(run: IconRun, resource: Resource)
    requires
        crate::ledger::answered(run.calls(), run.replies),
        run.call() is None,
    ensures
        crate::ledger::balance(crate::ledger::trace(run.calls(), run.replies), resource)
            == crate::ledger::strays(crate::ledger::trace(run.calls(), run.replies), resource)
            + crate::ledger::only(icon_left(run), resource),
{
    lemma_icon_held(run, resource);
    lemma_icon_end(run, resource);
}

/// The making of an icon ends, after eight calls at most.
pub proof fn law_making_ends(run: IconRun)
    requires
        run.replies.len() >= 8,
    ensures
        run.call() is None,
{
}

/// The pixels that are written to a bitmap stay within the size that its header
/// gives, and an image of four bytes to each of its pixels fills it exactly. The
/// lines run from the top down.
pub proof fn law_pixels_stay_in_the_bitmap(image: BgraView)
    requires
        image_fits(image),
    ensures
        image.pixels.len() <= bitmap_header(image.width, image.height).image_size,
        image.pixels.len() == image.width * image.height * 4 ==> image.pixels.len()
            == bitmap_header(image.width, image.height).image_size,
        bitmap_header(image.width, image.height).width == image.width,
        bitmap_header(image.width, image.height).height == -image.height,
{
    lemma_sides(image.width, image.height);
}

/// A pixel that is read through the masks of the header gives the channels that its
/// bytes hold in the order blue, green, red, alpha. The header is that of one plane
/// of 32-bit pixels, as wide and as high as the bitmap, from the top down, and as
/// long as its pixels.
pub proof fn law_masks_match_pixels(
    width: u32,
    height: u32,
    blue: u8,
    green: u8,
    red: u8,
    alpha: u8,
)
    requires
        bitmap_fits(width, height),
    ensures
        ({
            let header = bitmap_header(width, height);
            let pixel: u32 = (blue as u32) | ((green as u32) << 8u32) | ((red as u32) << 16u32) | ((
            alpha as u32) << 24u32);
            &&& header.planes == 1
            &&& header.bit_count == 32
            &&& header.compression == 3
            &&& header.width == width
            &&& header.height == -height
            &&& header.image_size == 4 * (width * height)
            &&& (pixel & header.blue_mask) == (blue as u32)
            &&& (pixel & header.green_mask) == ((green as u32) << 8u32)
            &&& (pixel & header.red_mask) == ((red as u32) << 16u32)
            &&& (pixel & header.alpha_mask) == ((alpha as u32) << 24u32)
            &&& header.blue_mask == 0xFF
            &&& header.green_mask == 0xFF00
            &&& header.red_mask == 0xFF0000
            &&& header.alpha_mask == 0xFF000000
        }),
{
    lemma_sides(width, height);
    let pixel: u32 = (blue as u32) | ((green as u32) << 8u32) | ((red as u32) << 16u32) | ((
    alpha as u32) << 24u32);
    assert((pixel & 0xFFu32) == (blue as u32)) by (bit_vector)
        requires
            pixel == (blue as u32) | ((green as u32) << 8u32) | ((red as u32) << 16u32) | ((
            alpha as u32) << 24u32),
    ;
    assert((pixel & 0xFF00u32) == ((green as u32) << 8u32)) by (bit_vector)
        requires
            pixel == (blue as u32) | ((green as u32) << 8u32) | ((red as u32) << 16u32) | ((
            alpha as u32) << 24u32),
    ;
    assert((pixel & 0xFF0000u32) == ((red as u32) << 16u32)) by (bit_vector)
        requires
            pixel == (blue as u32) | ((green as u32) << 8u32) | ((red as u32) << 16u32) | ((
            alpha as u32) << 24u32),
    ;
    assert((pixel & 0xFF000000u32) == ((alpha as u32) << 24u32)) by (bit_vector)
        requires
            pixel == (blue as u32) | ((green as u32) << 8u32) | ((red as u32) << 16u32) | ((
            alpha as u32) << 24u32),
    ;
}

/// A bitmap can be made of every size that has pixels and whose bytes can be
/// counted to 32 bits and kept together, and of no other.
pub proof fn law_sizes_that_fit(width: u32, height: u32, image: BgraView)
    ensures
        bitmap_fits(width, height) <==> 0 < 4 * (width * height) <= 0xFFFF_FFFF && 4 * (width
            * height) <= isize::MAX,
        image_fits(image) <==> bitmap_fits(image.width, image.height) && image.pixels.len() <= 4
            * (image.width * image.height),
{
    assert(0 < 4 * (width * height) <==> width > 0 && height > 0) by (nonlinear_arith)
        requires
            width >= 0,
            height >= 0,
    ;
}

/// Every call for an icon comes at its time and carries what the replies before it
/// gave: the screen goes to the bitmap and is given back, the pixels of the image go
/// to the place that the bitmap has for them, the mask has the size of the image, the
/// icon is made of the mask and the bitmap, and these two are deleted.
pub proof fn law_calls_for_an_icon(run: IconRun)
    requires
        run.call() is Some,
    ensures
        run.image is Ok,
        ({
            let image = run.image->Ok_0;
            let made = run.replies.len();
            match run.call()->0 {
                CallView::GetDc => made == 0,
                CallView::CreateSection { dc, header } => {
                    &&& made == 1
                    &&& dc == run.replies[0].handle_spec()
                    &&& header == bitmap_header(image.width, image.height)
                },
                CallView::ReleaseDc { dc } => made == 2 && dc == run.replies[0].handle_spec(),
                CallView::CopyPixels { bits, pixels } => {
                    &&& made == 3
                    &&& bits == run.replies[1].bits_spec()
                    &&& bits != 0
                    &&& pixels == image.pixels
                },
                CallView::CreateMask { width, height } => {
                    &&& made == 4
                    &&& image_fits(image) ==> width == image.width && height == image.height
                },
                CallView::CreateIcon { mask, color } => {
                    &&& made == 5
                    &&& mask == run.replies[4].handle_spec()
                    &&& mask != 0
                    &&& color == run.replies[1].bitmap_spec()
                    &&& color != 0
                },
                CallView::DeleteObject { object } => {
                    &&& made == 5 ==> object == run.replies[1].bitmap_spec()
                        && run.replies[4].handle_spec() == 0
                    &&& made == 6 ==> object == run.replies[1].bitmap_spec()
                    &&& made == 7 ==> object == run.replies[4].handle_spec()
                    &&& 5 <= made <= 7
                },
                _ => false,
            }
        }),
{
    let image = run.image->Ok_0;
    if image_fits(image) {
        lemma_sides(image.width, image.height);
    }
}

/// The making of an icon goes on for as long as the system gives what it is asked
/// for, and what it comes to is the icon that the system made, if it made one.
pub proof fn law_making_goes_on(run: IconRun)
    ensures
        ({
            let made = run.replies.len();
            let section = run.replies[1].bitmap_spec() != 0 && run.replies[1].bits_spec() != 0;
            let mask = run.replies[4].handle_spec() != 0;
            match run.image {
                Err(error) => {
                    &&& run.call() is None
                    &&& run.span() == 0
                    &&& run.outcome() == Err::<usize, WindowsTrayError>(error)
                },
                Ok(_) => {
                    &&& made < 3 ==> run.call() is Some
                    &&& made >= 3 && !section ==> run.call() is None
                    &&& 3 <= made < 6 && section ==> run.call() is Some
                    &&& 6 <= made < 8 && section && mask ==> run.call() is Some
                    &&& made >= 6 && !mask ==> run.call() is None
                    &&& made >= 8 ==> run.call() is None
                    &&& run.span() == if !section {
                        3int
                    } else if !mask {
                        6
                    } else {
                        8
                    }
                    &&& match run.outcome() {
                        Ok(icon) => section && mask && icon != 0 && icon
                            == run.replies[5].handle_spec(),
                        Err(error) => error is BadIcon && (!section || !mask
                            || run.replies[5].handle_spec() == 0),
                    }
                },
            }
        }),
{
}

/// A reply is kept for as long as there is a call to answer.
pub proof fn law_icon_replies_kept(run: IconRun, reply: Reply)
    ensures
        run.after(reply).image == run.image,
        run.after(reply).replies == if run.call() is Some {
            run.replies.push(reply)
        } else {
            run.replies
        },
{
}

} // verus!
