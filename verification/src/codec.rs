//! The H.264 codec: `openh264`'s encoder and decoder, each kept together with
//! a record of what has been handed to it. Only the calls in this module
//! write the record, so a function elsewhere that says what the record
//! became says what it gave the codec.

use vstd::prelude::*;
use openh264::formats::YUVSource;

verus! {

#[verifier::external_type_specification]
#[verifier::external_body]
pub struct ExH264Decoder(openh264::decoder::Decoder);

#[verifier::external_type_specification]
#[verifier::external_body]
pub struct ExH264Encoder(openh264::encoder::Encoder);

#[verifier::external_type_specification]
#[verifier::external_body]
pub struct ExH264Error(openh264::Error);

/// A decoded picture: its size and its RGB pixels, row by row.
pub struct Picture {
    pub width: usize,
    pub height: usize,
    pub rgb: Vec<u8>,
}

/// A decoded picture as plain values: its RGB bytes, width and height.
pub open spec fn picture_view(decoded: Option<Picture>) -> Option<(Seq<u8>, nat, nat)> {
    match decoded {
        Some(p) => Some((p.rgb@, p.width as nat, p.height as nat)),
        None => None,
    }
}

/// The picture a decoding call gave back, if any.
pub open spec fn picture_returned(r: Result<Option<Picture>, openh264::Error>) -> Option<
    (Seq<u8>, nat, nat),
> {
    match r {
        Ok(d) => picture_view(d),
        Err(_) => None,
    }
}

/// An H.264 decoder, the packets handed to it so far, and the picture (if
/// any) it gave back for each.
pub struct H264Decoder {
    inner: openh264::decoder::Decoder,
    fed: Ghost<Seq<Seq<u8>>>,
    returned: Ghost<Seq<Option<(Seq<u8>, nat, nat)>>>,
}

impl H264Decoder {
    /// The packets handed to the decoder, in order.
    pub closed spec fn fed(&self) -> Seq<Seq<u8>> {
        self.fed@
    }

    /// For each packet handed to the decoder, the picture it gave back, if
    /// any.
    pub closed spec fn returned(&self) -> Seq<Option<(Seq<u8>, nat, nat)>> {
        self.returned@
    }

    /// `openh264::decoder::Decoder::new()`. Nothing is claimed of whether it
    /// succeeds; a new decoder has been handed nothing.
    #[verifier::external_body]
    pub(crate) fn new() -> (r: Result<H264Decoder, openh264::Error>)
        ensures
            r matches Ok(d) ==> d.fed() == Seq::<Seq<u8>>::empty(),
            r matches Ok(d) ==> d.returned() == Seq::<Option<(Seq<u8>, nat, nat)>>::empty(),
    {
        match openh264::decoder::Decoder::new() {
            Ok(inner) => Ok(
                H264Decoder { inner, fed: Ghost(Seq::empty()), returned: Ghost(Seq::empty()) },
            ),
            Err(e) => Err(e),
        }
    }

    /// `Decoder::decode(packet)`, with a picture it returns written out by
    /// `write_rgb8` into a buffer of `estimate_rgb_u8_size()` bytes. Claimed:
    /// `packet` is what the decoder is handed, what this call gives back is
    /// what the record of returned pictures holds for it, and a picture's
    /// buffer holds three bytes per pixel, which `write_rgb8` asserts. Which
    /// picture comes back depends on the packets decoded before and is not
    /// claimed.
    #[verifier::external_body]
    pub(crate) fn decode(&mut self, packet: &[u8]) -> (r: Result<Option<Picture>, openh264::Error>)
        ensures
            final(self).fed() == old(self).fed().push(packet@),
            final(self).returned() == old(self).returned().push(picture_returned(r)),
            r matches Ok(Some(p)) ==> p.rgb@.len() == p.width * p.height * 3,
    {
        match self.inner.decode(packet) {
            Ok(Some(yuv)) => {
                let (width, height) = yuv.dimensions();
                let mut rgb = vec![0u8; yuv.estimate_rgb_u8_size()];
                yuv.write_rgb8(&mut rgb);
                Ok(Some(Picture { width, height, rgb }))
            },
            Ok(None) => Ok(None),
            Err(e) => Err(e),
        }
    }
}

/// An H.264 encoder and the BGRA pictures handed to it so far, each with its
/// width and height.
pub struct H264Encoder {
    inner: openh264::encoder::Encoder,
    fed: Ghost<Seq<(Seq<u8>, nat, nat)>>,
}

impl H264Encoder {
    /// The pictures handed to the encoder, in order.
    pub closed spec fn fed(&self) -> Seq<(Seq<u8>, nat, nat)> {
        self.fed@
    }

    /// `openh264::encoder::Encoder::new()`. Nothing is claimed of whether it
    /// succeeds; a new encoder has been handed nothing.
    #[verifier::external_body]
    pub(crate) fn new() -> (r: Result<H264Encoder, openh264::Error>)
        ensures
            r matches Ok(e) ==> e.fed() == Seq::<(Seq<u8>, nat, nat)>::empty(),
    {
        match openh264::encoder::Encoder::new() {
            Ok(inner) => Ok(H264Encoder { inner, fed: Ghost(Seq::empty()) }),
            Err(e) => Err(e),
        }
    }

    /// `Encoder::encode` of the picture that `BgraSliceU8::new(bgra, (width,
    /// height))` describes, converted by `YUVBuffer::from_rgb_source`, with
    /// the bitstream collected by `to_vec`. Claimed: that picture is what the
    /// encoder is handed. What comes out depends on the pictures encoded
    /// before and is not claimed. `BgraSliceU8::new` panics unless the slice
    /// holds four bytes per pixel and both sides are even, which the
    /// precondition rules out.
    #[verifier::external_body]
    pub(crate) fn encode_bgra(&mut self, bgra: &[u8], width: usize, height: usize) -> (r: Result<
        Vec<u8>,
        openh264::Error,
    >)
        requires
            bgra@.len() == width * height * 4,
            width % 2 == 0,
            height % 2 == 0,
        ensures
            final(self).fed() == old(self).fed().push((bgra@, width as nat, height as nat)),
    {
        let yuv = openh264::formats::YUVBuffer::from_rgb_source(
            openh264::formats::BgraSliceU8::new(bgra, (width, height)),
        );
        match self.inner.encode(&yuv) {
            Ok(bits) => Ok(bits.to_vec()),
            Err(e) => Err(e),
        }
    }
}

} // verus!
