//! The video path: the host turns captured BGRA pictures into H.264 messages,
//! the viewer turns those back into pictures and hands each to its window as
//! a JPEG data URL. The codecs are outside crates; what this module decides
//! around them is verified.

use vstd::prelude::*;
use vstd::string::*;
use crate::protocol::{
    encode_init_message, init_message, is_init, is_init_payload, law_announcement_recognised,
    law_video_not_announcement,
};
use base64::Engine;
use crate::codec::{picture_returned, picture_view, H264Decoder, H264Encoder, Picture};

verus! {

#[verifier::external_type_specification]
#[verifier::external_body]
pub struct ExJpegError(jpeg_encoder::EncodingError);

/// The quality at which the viewer compresses pictures for its window.
pub const JPEG_QUALITY: u8 = 70;

/// The JPEG file that `jpeg_encoder` writes for `width` x `height` RGB pixels
/// at the given quality.
pub uninterp spec fn jpeg_of_rgb(rgb: Seq<u8>, width: u16, height: u16, quality: u8) -> Seq<u8>;

/// The digit of the standard base64 alphabet (RFC 4648) for a six-bit value.
pub open spec fn base64_digit(v: nat) -> char {
    if v < 26 {
        (65 + v) as char
    } else if v < 52 {
        (97 + (v - 26)) as char
    } else if v < 62 {
        (48 + (v - 52)) as char
    } else if v == 62 {
        '+'
    } else {
        '/'
    }
}

/// Standard base64 with padding (RFC 4648): every three bytes become four
/// digits, and a last group of one or two bytes is padded with `=`.
pub open spec fn base64_standard(bytes: Seq<u8>) -> Seq<char>
    decreases bytes.len(),
{
    if bytes.len() == 0 {
        Seq::empty()
    } else if bytes.len() == 1 {
        let b0 = bytes[0] as nat;
        seq![base64_digit(b0 / 4), base64_digit((b0 % 4) * 16), '=', '=']
    } else if bytes.len() == 2 {
        let b0 = bytes[0] as nat;
        let b1 = bytes[1] as nat;
        seq![
            base64_digit(b0 / 4),
            base64_digit((b0 % 4) * 16 + b1 / 16),
            base64_digit((b1 % 16) * 4),
            '=',
        ]
    } else {
        let b0 = bytes[0] as nat;
        let b1 = bytes[1] as nat;
        let b2 = bytes[2] as nat;
        seq![
            base64_digit(b0 / 4),
            base64_digit((b0 % 4) * 16 + b1 / 16),
            base64_digit((b1 % 16) * 4 + b2 / 64),
            base64_digit(b2 % 64),
        ] + base64_standard(bytes.skip(3))
    }
}

/// Why the video path could not start.
#[derive(Clone, Copy, Debug, PartialEq, Eq, Structural)]
pub enum VideoError {
    /// The H.264 codec could not be set up.
    CodecUnavailable,
}

/// `jpeg_encoder::Encoder::new(.., quality).encode(rgb, width, height,
/// ColorType::Rgb)` into a `Vec`. Claimed: it succeeds exactly when both
/// sides are non-zero and `rgb` holds at least `width * height * 3` bytes
/// (the checks in `encode`; writing to a `Vec` cannot fail); what it writes is
/// `jpeg_of_rgb` of the arguments, and like every `Vec` it holds at most
/// `isize::MAX` bytes. `encode` computes `width * height * 3` in `usize`;
/// where that overflows (on 32-bit targets) it panics or slices out of
/// bounds, which the precondition rules out.
#[verifier::external_body]
fn jpeg_encode_rgb(rgb: &[u8], width: u16, height: u16, quality: u8) -> (r: Result<
    Vec<u8>,
    jpeg_encoder::EncodingError,
>)
    requires
        1 <= quality <= 100,
        width * height * 3 <= usize::MAX,
    ensures
        r is Ok <==> (width > 0 && height > 0 && rgb@.len() >= width * height * 3),
        r matches Ok(v) ==> v@ == jpeg_of_rgb(rgb@, width, height, quality),
        r matches Ok(v) ==> v@.len() <= isize::MAX,
{
    let mut out: Vec<u8> = Vec::new();
    match jpeg_encoder::Encoder::new(&mut out, quality).encode(
        rgb,
        width,
        height,
        jpeg_encoder::ColorType::Rgb,
    ) {
        Ok(()) => Ok(out),
        Err(e) => Err(e),
    }
}

/// `base64::engine::general_purpose::STANDARD.encode(bytes)`. Claimed: the
/// text is standard padded base64 of `bytes`, as `base64_standard` spells it
/// out. `encode` panics when the length of that text, four characters for
/// every three bytes begun, overflows `usize`, which the precondition rules
/// out.
#[verifier::external_body]
fn base64_encode(bytes: &[u8]) -> (s: String)
    requires
        4 * ((bytes@.len() + 2) / 3) <= usize::MAX,
    ensures
        s@ == base64_standard(bytes@),
{
    base64::engine::general_purpose::STANDARD.encode(bytes)
}

/// The prefix of a JPEG data URL.
pub open spec fn data_url_prefix() -> Seq<char> {
    "data:image/jpeg;base64,"@
}

/// A side of a picture as the JPEG encoder takes it: cut to 16 bits.
pub open spec fn side16(n: nat) -> u16 {
    (n % 0x1_0000) as u16
}

/// Cutting the sides to 16 bits never makes the picture larger.
proof fn lemma_cut_sides_fit(width: nat, height: nat)
    ensures
        side16(width) * side16(height) * 3 <= width * height * 3,
{
    let w = side16(width) as nat;
    let h = side16(height) as nat;
    assert(w <= width);
    assert(h <= height);
    assert(w * h * 3 <= width * height * 3) by (nonlinear_arith)
        requires
            w <= width,
            h <= height,
    ;
}

/// The data URL the viewer shows for a decoded picture, or none when the JPEG
/// encoder refuses the picture.
pub open spec fn picture_url(rgb: Seq<u8>, width: nat, height: nat) -> Option<Seq<char>> {
    let w = side16(width);
    let h = side16(height);
    if w > 0 && h > 0 && rgb.len() >= w * h * 3 {
        Some(data_url_prefix() + base64_standard(jpeg_of_rgb(rgb, w, h, JPEG_QUALITY)))
    } else {
        None
    }
}

/// Wraps base64 text as a JPEG data URL.
pub fn data_url_of_base64(b64: &str) -> (url: String)
    ensures
        url@ == data_url_prefix() + b64@,
{
    let mut url = String::from_str("data:image/jpeg;base64,");
    url.append(b64);
    url
}

/// The data URL of a JPEG file.
pub fn data_url_of_jpeg(jpeg: &[u8]) -> (url: String)
    requires
        jpeg@.len() <= isize::MAX,
    ensures
        url@ == data_url_prefix() + base64_standard(jpeg@),
{
    let b64 = base64_encode(jpeg);
    data_url_of_base64(b64.as_str())
}

/// Compresses a decoded picture to JPEG and wraps it as a data URL. The
/// sides, cut to 16 bits, must span at most `usize::MAX` RGB bytes, as the
/// JPEG encoder computes that size in `usize`.
pub fn render_picture(rgb: &[u8], width: usize, height: usize) -> (url: Option<String>)
    requires
        side16(width as nat) * side16(height as nat) * 3 <= usize::MAX,
    ensures
        url matches Some(u) ==> picture_url(rgb@, width as nat, height as nat) == Some(u@),
        url is None ==> picture_url(rgb@, width as nat, height as nat) is None,
        ((width % 0x1_0000) as u16 > 0 && (height % 0x1_0000) as u16 > 0 && rgb@.len() >= ((
        width % 0x1_0000) as u16) * ((height % 0x1_0000) as u16) * 3) ==> (url matches Some(u)
            && u@ == data_url_prefix() + base64_standard(
            jpeg_of_rgb(rgb@, (width % 0x1_0000) as u16, (height % 0x1_0000) as u16, JPEG_QUALITY),
        )),
        !((width % 0x1_0000) as u16 > 0 && (height % 0x1_0000) as u16 > 0 && rgb@.len() >= ((
        width % 0x1_0000) as u16) * ((height % 0x1_0000) as u16) * 3) ==> url is None,
{
    let w: u16 = (width % 0x1_0000) as u16;
    let h: u16 = (height % 0x1_0000) as u16;
    match jpeg_encode_rgb(rgb, w, h, JPEG_QUALITY) {
        Ok(jpeg) => Some(data_url_of_jpeg(jpeg.as_slice())),
        Err(_) => None,
    }
}

/// What the viewer does with one message from the host.
pub enum ViewerUpdate {
    /// The message announces the picture size; it is passed on as it is.
    Announcement,
    /// A picture was decoded; here is its data URL.
    Picture { data_url: String },
    /// Nothing to show yet, or the message could not be used.
    Nothing,
}

/// The viewer's side of the video path.
pub struct ViewerVideo {
    decoder: H264Decoder,
}

impl ViewerVideo {
    /// The messages handed to the H.264 decoder so far, in order.
    pub closed spec fn fed(&self) -> Seq<Seq<u8>> {
        self.decoder.fed()
    }

    /// For each message handed to the decoder, the picture it gave back, if
    /// any.
    pub closed spec fn returned(&self) -> Seq<Option<(Seq<u8>, nat, nat)>> {
        self.decoder.returned()
    }

    /// Sets up the H.264 decoder.
    pub fn new() -> (r: Result<ViewerVideo, VideoError>)
        ensures
            r matches Ok(v) ==> v.fed() == Seq::<Seq<u8>>::empty(),
            r matches Ok(v) ==> v.returned() == Seq::<Option<(Seq<u8>, nat, nat)>>::empty(),
            r matches Err(e) ==> e == VideoError::CodecUnavailable,
    {
        match H264Decoder::new() {
            Ok(decoder) => Ok(ViewerVideo { decoder }),
            Err(_) => Err(VideoError::CodecUnavailable),
        }
    }

    /// Handles one message from the host: an announcement is recognised by
    /// its tag and never decoded; anything else goes to the decoder, and what
    /// the decoder returns is turned into an update by `update_for_decoded`.
    pub fn handle_payload(&mut self, payload: &[u8]) -> (u: ViewerUpdate)
        ensures
            u is Announcement <==> is_init_payload(payload@),
            is_init_payload(payload@) ==> *final(self) == *old(self),
            !is_init_payload(payload@) ==> final(self).fed() == old(self).fed().push(payload@),
            !is_init_payload(payload@) ==> final(self).returned().len() == old(
                self,
            ).returned().len() + 1 && final(self).returned().drop_last() == old(self).returned(),
            !is_init_payload(payload@) ==> is_picture(final(self).returned().last()) && update_shows(
                u,
                final(self).returned().last(),
            ),
            !is_init_payload(payload@) ==> (final(self).returned().last() is None ==> u is Nothing),
            !is_init_payload(payload@) ==> (final(self).returned().last() matches Some((rgb, w, h))
                ==> if (w % 0x1_0000) as u16 > 0 && (h % 0x1_0000) as u16 > 0 && rgb.len() >= ((
            w % 0x1_0000) as u16) * ((h % 0x1_0000) as u16) * 3 {
                (u matches ViewerUpdate::Picture { data_url } && data_url@ == data_url_prefix()
                    + base64_standard(
                    jpeg_of_rgb(rgb, (w % 0x1_0000) as u16, (h % 0x1_0000) as u16, JPEG_QUALITY),
                ))
            } else {
                u is Nothing
            }),
    {
        if is_init(payload) {
            return ViewerUpdate::Announcement;
        }
        let r = self.decoder.decode(payload);
        let ghost d = picture_returned(r);
        let decoded = match r {
            Ok(Some(picture)) => Some(picture),
            _ => None,
        };
        assert(picture_view(decoded) == d);
        let u = update_for_decoded(decoded);
        assert(self.returned().last() == d);
        u
    }
}

/// Whether the bytes of a decoded picture are three per pixel.
pub open spec fn is_picture(decoded: Option<(Seq<u8>, nat, nat)>) -> bool {
    match decoded {
        Some((rgb, w, h)) => rgb.len() == w * h * 3,
        None => true,
    }
}

/// Whether `u` is what the viewer shows for the decoder's outcome `decoded`:
/// the data URL of the picture, or nothing when there is no picture or the
/// JPEG encoder refuses it.
pub open spec fn update_shows(u: ViewerUpdate, decoded: Option<(Seq<u8>, nat, nat)>) -> bool {
    let url = match decoded {
        Some((rgb, w, h)) => picture_url(rgb, w, h),
        None => None,
    };
    match u {
        ViewerUpdate::Announcement => false,
        ViewerUpdate::Nothing => url is None,
        ViewerUpdate::Picture { data_url } => url == Some(data_url@),
    }
}

/// The update for what the decoder returned for a video message: nothing
/// without a picture, else the picture's data URL, or nothing when the JPEG
/// encoder refuses it.
pub fn update_for_decoded(decoded: Option<Picture>) -> (u: ViewerUpdate)
    requires
        is_picture(picture_view(decoded)),
    ensures
        update_shows(u, picture_view(decoded)),
{
    match decoded {
        Some(picture) => {
            let rgb_len = picture.rgb.len();
            proof {
                // the picture's byte count is a `usize`, and the cut sides span no more
                assert(picture.width * picture.height * 3 == rgb_len);
                lemma_cut_sides_fit(picture.width as nat, picture.height as nat);
            }
            match render_picture(picture.rgb.as_slice(), picture.width, picture.height) {
                Some(data_url) => ViewerUpdate::Picture { data_url },
                None => ViewerUpdate::Nothing,
            }
        },
        None => ViewerUpdate::Nothing,
    }
}

/// The contents of a list of messages.
pub open spec fn views(msgs: Seq<Vec<u8>>) -> Seq<Seq<u8>> {
    Seq::new(msgs.len(), |i: int| msgs[i]@)
}

/// The messages the host sends for one captured picture: the size
/// announcement when the encoder was only now set up, then the encoded
/// picture unless the encoder produced no bytes or failed.
pub open spec fn capture_messages(announce: Option<(nat, nat)>, encoded: Option<Seq<u8>>) -> Seq<
    Seq<u8>,
> {
    let first: Seq<Seq<u8>> = match announce {
        Some((w, h)) => seq![init_message(w, h)],
        None => Seq::empty(),
    };
    match encoded {
        Some(bits) => if bits.len() > 0 {
            first.push(bits)
        } else {
            first
        },
        None => first,
    }
}

/// The messages for one captured picture, given what the encoder returned.
pub fn messages_for_capture(announce: Option<(usize, usize)>, encoded: Option<Vec<u8>>) -> (out: Vec<
    Vec<u8>,
>)
    ensures
        views(out@) == capture_messages(
            match announce {
                Some((w, h)) => Some((w as nat, h as nat)),
                None => None,
            },
            match encoded {
                Some(b) => Some(b@),
                None => None,
            },
        ),
{
    let ghost a = match announce {
        Some((w, h)) => Some((w as nat, h as nat)),
        None => None,
    };
    let ghost e = match &encoded {
        Some(b) => Some(b@),
        None => None,
    };
    let mut out: Vec<Vec<u8>> = Vec::new();
    match announce {
        Some((w, h)) => out.push(encode_init_message(w, h)),
        None => {},
    }
    let ghost first = views(out@);
    assert(first =~= match a {
        Some((w, h)) => seq![init_message(w, h)],
        None => Seq::<Seq<u8>>::empty(),
    });
    match encoded {
        Some(bits) => if bits.len() > 0 {
            out.push(bits);
            assert(views(out@) =~= first.push(e.unwrap()));
        },
        None => {},
    }
    assert(views(out@) =~= capture_messages(a, e));
    out
}

/// The size announced with a captured picture: none once the encoder was set
/// up before it.
pub open spec fn announcement_after(was_ready: bool, width: nat, height: nat) -> Option<(nat, nat)> {
    if was_ready {
        None
    } else {
        Some((width, height))
    }
}

/// What the capture loop does after one picture.
pub enum CaptureStep {
    /// The encoder could not be set up: capturing ends.
    Stop,
    /// Send these messages, in order.
    Send(Vec<Vec<u8>>),
}

/// The host's side of the video path: the encoder, set up on the first
/// captured picture.
pub struct HostVideo {
    encoder: Option<H264Encoder>,
}

impl HostVideo {
    /// Whether the encoder has been set up.
    pub closed spec fn ready(&self) -> bool {
        self.encoder is Some
    }

    /// The pictures handed to the encoder so far, each with its width and
    /// height, in order; none before the encoder is set up.
    pub closed spec fn fed(&self) -> Seq<(Seq<u8>, nat, nat)> {
        match self.encoder {
            Some(e) => e.fed(),
            None => Seq::empty(),
        }
    }

    /// A host whose encoder is not set up yet.
    pub fn new() -> (v: HostVideo)
        ensures
            !v.ready(),
            v.fed() == Seq::<(Seq<u8>, nat, nat)>::empty(),
    {
        HostVideo { encoder: None }
    }

    /// Whether the encoder has been set up.
    pub fn is_ready(&self) -> (r: bool)
        ensures
            r == self.ready(),
    {
        self.encoder.is_some()
    }

    /// Handles one captured BGRA picture. On the first picture the encoder is
    /// set up; if that fails capturing stops, else the size announcement goes
    /// first. Then the picture is encoded and sent unless the encoder
    /// produced nothing or failed.
    pub fn capture(&mut self, bgra: &[u8], width: usize, height: usize) -> (step: CaptureStep)
        requires
            bgra@.len() == width * height * 4,
            width % 2 == 0,
            height % 2 == 0,
        ensures
            step is Stop ==> !old(self).ready() && !final(self).ready(),
            step is Send ==> final(self).ready(),
            step is Send ==> final(self).fed() == old(self).fed().push(
                (bgra@, width as nat, height as nat),
            ),
            step is Stop ==> final(self).fed() == old(self).fed(),
            old(self).ready() ==> step is Send,
            !old(self).ready() ==> (step matches CaptureStep::Send(msgs) ==> 1 <= msgs@.len() <= 2
                && msgs@[0]@ == init_message(width as nat, height as nat) && (msgs@.len() == 2
                ==> msgs@[1]@.len() > 0)),
            old(self).ready() ==> (step matches CaptureStep::Send(msgs) ==> msgs@.len() <= 1 && (
            msgs@.len() == 1 ==> msgs@[0]@.len() > 0)),
            step matches CaptureStep::Send(msgs) ==> exists|enc: Option<Seq<u8>>|
                views(msgs@) == #[trigger] capture_messages(
                    announcement_after(old(self).ready(), width as nat, height as nat),
                    enc,
                ),
    {
        let announce: Option<(usize, usize)> = if self.encoder.is_none() {
            match H264Encoder::new() {
                Ok(enc) => {
                    self.encoder = Some(enc);
                    Some((width, height))
                },
                Err(_) => {
                    return CaptureStep::Stop;
                },
            }
        } else {
            None
        };
        let encoded: Option<Vec<u8>> = match &mut self.encoder {
            Some(enc) => match enc.encode_bgra(bgra, width, height) {
                Ok(bits) => Some(bits),
                Err(_) => None,
            },
            None => None,
        };
        let ghost enc_view: Option<Seq<u8>> = match &encoded {
            Some(b) => Some(b@),
            None => None,
        };
        let msgs = messages_for_capture(announce, encoded);
        assert(views(msgs@) == capture_messages(
            announcement_after(old(self).ready(), width as nat, height as nat),
            enc_view,
        ));
        proof {
            let v = views(msgs@);
            assert(v.len() == msgs@.len());
            if msgs@.len() > 0 {
                assert(v[0] == msgs@[0]@);
            }
            if msgs@.len() > 1 {
                assert(v[1] == msgs@[1]@);
            }
        }
        CaptureStep::Send(msgs)
    }
}


/// Of the messages the host sends for a captured picture, the viewer takes
/// exactly the size announcement for an announcement, provided the encoder's
/// output does not open with `{` (H.264 output opens with a zero byte).
pub proof fn law_viewer_tells_announcement_from_video(
    announce: Option<(nat, nat)>,
    encoded: Option<Seq<u8>>,
)
    requires
        encoded matches Some(bits) ==> bits.len() == 0 || bits[0] != 0x7b,
    ensures
        forall|i: int|
            0 <= i < capture_messages(announce, encoded).len() ==> (is_init_payload(
                #[trigger] capture_messages(announce, encoded)[i],
            ) <==> (i == 0 && announce is Some)),
{
    let msgs = capture_messages(announce, encoded);
    match announce {
        Some((w, h)) => law_announcement_recognised(w, h),
        None => {},
    }
    match encoded {
        Some(bits) => law_video_not_announcement(bits),
        None => {},
    }
}


/// The first picture the host captures is announced with its own size, width
/// first; once the encoder is set up no picture is announced again, and every
/// other message carries encoder output.
pub proof fn law_capture_announces_own_size(width: nat, height: nat, encoded: Option<Seq<u8>>)
    ensures
        capture_messages(announcement_after(false, width, height), encoded)[0] == init_message(
            width,
            height,
        ),
        1 <= capture_messages(announcement_after(false, width, height), encoded).len() <= 2,
        capture_messages(announcement_after(true, width, height), encoded).len() <= 1,
        forall|i: int|
            0 <= i < capture_messages(announcement_after(true, width, height), encoded).len()
                ==> encoded == Some(
                #[trigger] capture_messages(announcement_after(true, width, height), encoded)[i],
            ),
{
}

/// A decoded picture is shown as the JPEG of exactly that picture, laid out
/// `width` wide and `height` tall, whenever both sides (cut to 16 bits) are
/// non-zero and the bytes suffice; otherwise it is not shown.
pub proof fn law_picture_shown_in_its_shape(u: ViewerUpdate, rgb: Seq<u8>, width: nat, height: nat)
    requires
        update_shows(u, Some((rgb, width, height))),
    ensures
        ((width % 0x1_0000) as u16 > 0 && (height % 0x1_0000) as u16 > 0 && rgb.len() >= ((width
            % 0x1_0000) as u16) * ((height % 0x1_0000) as u16) * 3) ==> (u matches ViewerUpdate::Picture {
            data_url,
        } && data_url@ == data_url_prefix() + base64_standard(
            jpeg_of_rgb(rgb, (width % 0x1_0000) as u16, (height % 0x1_0000) as u16, JPEG_QUALITY),
        )),
        !((width % 0x1_0000) as u16 > 0 && (height % 0x1_0000) as u16 > 0 && rgb.len() >= ((width
            % 0x1_0000) as u16) * ((height % 0x1_0000) as u16) * 3) ==> u is Nothing,
        picture_url(rgb, width, height) is Some <==> ((width % 0x1_0000) as u16 > 0 && (height
            % 0x1_0000) as u16 > 0 && rgb.len() >= ((width % 0x1_0000) as u16) * ((height
            % 0x1_0000) as u16) * 3),
{
}

} // verus!
