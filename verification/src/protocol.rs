//! The messages that travel inside frames: the host's announcement of the
//! picture size, the tag a viewer recognises it by, and the picture message
//! the viewer hands to its window.

use vstd::prelude::*;
use vstd::string::*;
use vstd::utf8::*;

verus! {

/// The size of a shared screen, in pixels.
#[derive(Clone, Copy, Debug, PartialEq, Eq, Structural)]
pub struct ScreenSize {
    pub width: u32,
    pub height: u32,
}

/// The bytes of an ASCII text, one per character.
pub open spec fn ascii_bytes(s: Seq<char>) -> Seq<u8> {
    Seq::new(s.len(), |i: int| s[i] as u8)
}

/// The decimal numeral of `n`, as ASCII digits.
pub open spec fn decimal(n: nat) -> Seq<u8>
    decreases n,
{
    if n < 10 {
        seq![(48 + n) as u8]
    } else {
        decimal(n / 10).push((48 + n % 10) as u8)
    }
}

/// The opening of the announcement, up to the width.
pub open spec fn init_head() -> Seq<char> {
    "{\"type\":\"init\",\"width\":"@
}

/// What stands between the width and the height.
pub open spec fn init_middle() -> Seq<char> {
    ",\"height\":"@
}

/// The closing of the announcement.
pub open spec fn init_tail() -> Seq<char> {
    "}"@
}

/// The JSON object `{"type":"init","width":W,"height":H}` with which the host
/// announces the size of the pictures that follow. The keys stand in this
/// order, `type` first: the viewer recognises the announcement by its opening
/// `{"type":"init"` (see `is_init_payload`). A JSON writer that sorts keys
/// would put `height` first and the viewer would miss it.
pub open spec fn init_message(width: nat, height: nat) -> Seq<u8> {
    ascii_bytes(init_head()) + decimal(width) + ascii_bytes(init_middle()) + decimal(height)
        + ascii_bytes(init_tail())
}

/// The opening by which a viewer tells an announcement from video.
pub open spec fn init_tag() -> Seq<char> {
    "{\"type\":\"init\""@
}

/// Whether a payload is an announcement: it starts with the tag.
pub open spec fn is_init_payload(payload: Seq<u8>) -> bool {
    let tag = ascii_bytes(init_tag());
    payload.len() >= tag.len() && payload.take(tag.len() as int) == tag
}

/// Appends the bytes of an ASCII text.
fn push_ascii(out: &mut Vec<u8>, s: &str)
    requires
        is_ascii_chars(s@),
    ensures
        final(out)@ == old(out)@ + ascii_bytes(s@),
{
    let b = s.as_bytes();
    proof {
        is_ascii_chars_encode_utf8(s@);
    }
    let ghost start = out@;
    let mut i: usize = 0;
    while i < b.len()
        invariant
            i <= b@.len(),
            b@.len() == s@.len(),
            forall|j: int| 0 <= j < s@.len() ==> s@[j] as u8 == #[trigger] b@[j],
            out@ == start + ascii_bytes(s@).take(i as int),
        decreases b.len() - i,
    {
        out.push(b[i]);
        i = i + 1;
        assert(ascii_bytes(s@).take(i as int) =~= ascii_bytes(s@).take(i - 1).push(b@[i - 1]));
    }
    assert(ascii_bytes(s@).take(b@.len() as int) =~= ascii_bytes(s@));
}

/// Appends the decimal numeral of `n`.
fn push_decimal(out: &mut Vec<u8>, n: usize)
    ensures
        final(out)@ == old(out)@ + decimal(n as nat),
    decreases n,
{
    if n < 10 {
        out.push((48 + n) as u8);
        assert(decimal(n as nat) =~= seq![(48 + n) as u8]);
    } else {
        let ghost start = out@;
        push_decimal(out, n / 10);
        out.push((48 + n % 10) as u8);
        assert(out@ =~= start + decimal(n as nat));
    }
}

/// The decimal numeral of `n`.
pub fn decimal_bytes(n: usize) -> (out: Vec<u8>)
    ensures
        out@ == decimal(n as nat),
{
    let mut out: Vec<u8> = Vec::new();
    push_decimal(&mut out, n);
    assert(out@ =~= decimal(n as nat));
    out
}

/// The announcement of a picture size.
pub fn encode_init_message(width: usize, height: usize) -> (out: Vec<u8>)
    ensures
        out@ == init_message(width as nat, height as nat),
{
    let mut out: Vec<u8> = Vec::new();
    proof {
        reveal_strlit("{\"type\":\"init\",\"width\":");
        reveal_strlit(",\"height\":");
        reveal_strlit("}");
    }
    push_ascii(&mut out, "{\"type\":\"init\",\"width\":");
    push_decimal(&mut out, width);
    push_ascii(&mut out, ",\"height\":");
    push_decimal(&mut out, height);
    push_ascii(&mut out, "}");
    out
}

/// Whether a payload is an announcement rather than video.
pub fn is_init(payload: &[u8]) -> (r: bool)
    ensures
        r == is_init_payload(payload@),
{
    proof {
        reveal_strlit("{\"type\":\"init\"");
    }
    let mut tag: Vec<u8> = Vec::new();
    push_ascii(&mut tag, "{\"type\":\"init\"");
    assert(tag@ =~= ascii_bytes(init_tag()));
    if payload.len() < tag.len() {
        return false;
    }
    let mut i: usize = 0;
    while i < tag.len()
        invariant
            i <= tag@.len(),
            tag@.len() <= payload@.len(),
            tag@ == ascii_bytes(init_tag()),
            forall|j: int| 0 <= j < i ==> payload@[j] == tag@[j],
        decreases tag.len() - i,
    {
        if payload[i] != tag[i] {
            assert(payload@.take(tag@.len() as int)[i as int] != tag@[i as int]);
            return false;
        }
        i = i + 1;
    }
    assert(payload@.take(tag@.len() as int) =~= tag@);
    true
}


/// The host's announcement is always recognised by the viewer as one,
/// whatever the picture size.
pub proof fn law_announcement_recognised(width: nat, height: nat)
    ensures
        is_init_payload(init_message(width, height)),
{
    reveal_strlit("{\"type\":\"init\",\"width\":");
    reveal_strlit("{\"type\":\"init\"");
    let m = init_message(width, height);
    let tag = ascii_bytes(init_tag());
    let head = ascii_bytes(init_head());
    assert(tag.len() == 14);
    assert(head.len() == 23);
    assert(m.take(23) =~= head);
    assert(m.take(14) =~= tag);
}

/// A payload that does not open with `{` is never taken for an announcement;
/// in particular no H.264 stream, which opens with a zero byte, is.
pub proof fn law_video_not_announcement(payload: Seq<u8>)
    requires
        payload.len() == 0 || payload[0] != 0x7b,
    ensures
        !is_init_payload(payload),
{
    reveal_strlit("{\"type\":\"init\"");
    let tag = ascii_bytes(init_tag());
    assert(tag[0] == 0x7b);
    if payload.len() >= tag.len() {
        assert(payload.take(tag.len() as int)[0] == payload[0]);
    }
}

} // verus!
