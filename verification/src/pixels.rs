//! Conversion of premultiplied RGBA pixel data to straight alpha.

use vstd::prelude::*;

verus! {

/// One colour channel `c` of a pixel with alpha `a`, taken from premultiplied
/// to straight alpha: `c * 255 / a` rounded to nearest and capped at 255.
/// A fully transparent pixel has every channel 0.
pub open spec fn straight_channel(c: u8, a: u8) -> u8 {
    if a == 0 {
        0
    } else {
        let v = (c * 255 + a / 2) / (a as int);
        if v > 255 {
            255
        } else {
            v as u8
        }
    }
}

/// Byte `i` of the straight-alpha form of the RGBA data `data`.
pub open spec fn straight_byte(data: Seq<u8>, i: int) -> u8 {
    let a = data[i - i % 4 + 3];
    if a == 0 {
        0
    } else if i % 4 == 3 {
        a
    } else {
        straight_channel(data[i], a)
    }
}

/// The straight-alpha form of the premultiplied RGBA bytes `data`: every
/// whole 4-byte pixel converted, a trailing partial pixel dropped.
pub open spec fn unpremultiplied(data: Seq<u8>) -> Seq<u8> {
    Seq::new(((data.len() / 4) * 4) as nat, |i: int| straight_byte(data, i))
}

fn straight_channel_exec(c: u8, a: u8) -> (r: u8)
    requires
        a > 0,
    ensures
        r == straight_channel(c, a),
{
    let v: u16 = ((c as u16) * 255 + (a as u16) / 2) / (a as u16);
    if v > 255 {
        255
    } else {
        v as u8
    }
}

/// Convert premultiplied RGBA bytes to straight (non-premultiplied) alpha.
pub fn unpremultiply(data: &[u8]) -> (out: Vec<u8>)
    ensures
        out@ == unpremultiplied(data@),
{
    let len: usize = data.len();
    let n_pixels: usize = len / 4;
    let mut out: Vec<u8> = Vec::new();
    let mut k: usize = 0;
    while k < n_pixels
        invariant
            len == data@.len(),
            n_pixels == len / 4,
            k <= n_pixels,
            out@.len() == 4 * k,
            forall|i: int| 0 <= i < 4 * k ==> #[trigger] out@[i] == straight_byte(data@, i),
        decreases n_pixels - k,
    {
        assert(4 * k + 4 <= data@.len()) by (nonlinear_arith)
            requires
                k < n_pixels,
                n_pixels == len / 4,
                len == data@.len(),
        ;
        let base: usize = 4 * k;
        let a: u8 = data[base + 3];
        if a == 0 {
            out.push(0);
            out.push(0);
            out.push(0);
            out.push(0);
        } else {
            let r = straight_channel_exec(data[base], a);
            let g = straight_channel_exec(data[base + 1], a);
            let b = straight_channel_exec(data[base + 2], a);
            out.push(r);
            out.push(g);
            out.push(b);
            out.push(a);
        }
        proof {
            assert forall|i: int| 4 * k <= i < 4 * k + 4 implies #[trigger] out@[i] == straight_byte(data@, i) by {
                assert(i - i % 4 == 4 * k);
            }
        }
        k = k + 1;
    }
    assert(out@ =~= unpremultiplied(data@));
    out
}

/// A channel of a fully opaque pixel is left as it is.
pub proof fn lemma_opaque_channel_unchanged(c: u8)
    ensures
        straight_channel(c, 255) == c,
{
    assert((c * 255 + 127) / 255 == c as int) by (nonlinear_arith);
}

/// Law: every whole pixel keeps its alpha byte, and a fully transparent
/// pixel becomes all zero.
pub proof fn law_alpha_kept(data: Seq<u8>, p: int)
    requires
        0 <= p < data.len() / 4,
    ensures
        unpremultiplied(data).len() == (data.len() / 4) * 4,
        unpremultiplied(data)[4 * p + 3] == data[4 * p + 3],
        data[4 * p + 3] == 0 ==> unpremultiplied(data)[4 * p] == 0
            && unpremultiplied(data)[4 * p + 1] == 0 && unpremultiplied(data)[4 * p + 2] == 0,
{
    assert(4 * p + 4 <= (data.len() / 4) * 4) by (nonlinear_arith)
        requires
            0 <= p < data.len() / 4,
    ;
    assert((4 * p + 3) - (4 * p + 3) % 4 == 4 * p);
    assert((4 * p + 2) - (4 * p + 2) % 4 == 4 * p);
    assert((4 * p + 1) - (4 * p + 1) % 4 == 4 * p);
    assert((4 * p) - (4 * p) % 4 == 4 * p);
}

/// Law: data of whole pixels that are all fully opaque comes back unchanged.
pub proof fn law_opaque_unchanged(data: Seq<u8>)
    requires
        data.len() % 4 == 0,
        forall|p: int| 0 <= p < data.len() / 4 ==> #[trigger] data[4 * p + 3] == 255,
    ensures
        unpremultiplied(data) == data,
{
    let out = unpremultiplied(data);
    assert(out.len() == data.len());
    assert forall|i: int| 0 <= i < data.len() implies #[trigger] out[i] == data[i] by {
        let p = i / 4;
        assert(i - i % 4 == 4 * p);
        assert(0 <= p < data.len() / 4);
        assert(data[4 * p + 3] == 255);
        lemma_opaque_channel_unchanged(data[i]);
    }
    assert(out =~= data);
}

} // verus!
