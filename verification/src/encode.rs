//! Encoding styled spans as the ANSI byte stream that a terminal reads.
use vstd::prelude::*;
use vstd::utf8::encode_utf8;
use vstd::string::StringSliceAdditionalSpecFns;

use crate::ansi::{decimal, push_decimal, sgr_apply, ESC};
use crate::io::TermWrite;
use crate::style::{VtCellStyle, VtColor};

verus! {

/// The SGR codes that select `c` as the foreground (`fg`) or the
/// background: `38;2;r;g;b` / `48;2;r;g;b` for an RGB colour, 30–37 /
/// 40–47 for a standard palette entry, 90–97 / 100–107 for a bright one,
/// and `38;5;n` / `48;5;n` for the rest of the 256-colour palette.
pub open spec fn color_codes(c: VtColor, fg: bool) -> Seq<u16> {
    let base: u16 = if fg { 30 } else { 40 };
    let ext: u16 = if fg { 38 } else { 48 };
    match c {
        VtColor::Rgb(r, g, b) => seq![ext, 2, r as u16, g as u16, b as u16],
        VtColor::Palette(k) => if k < 8 {
            seq![(base + k) as u16]
        } else if k < 16 {
            seq![(base + 60 + k - 8) as u16]
        } else {
            seq![ext, 5, k as u16]
        },
    }
}

/// The SGR codes that set exactly `s`: a reset, then the foreground,
/// then the background.
pub open spec fn style_codes(s: VtCellStyle) -> Seq<u16> {
    seq![0u16] + color_codes(s.color, true) + color_codes(s.background, false)
}

/// `codes` in decimal, separated by `;`.
pub open spec fn join_codes(codes: Seq<u16>) -> Seq<u8>
    decreases codes.len(),
{
    if codes.len() == 0 {
        Seq::empty()
    } else if codes.len() == 1 {
        decimal(codes[0] as nat)
    } else {
        decimal(codes[0] as nat) + seq![0x3bu8] + join_codes(codes.drop_first())
    }
}

/// The control sequence `ESC [ codes m`.
pub open spec fn sgr_sequence(codes: Seq<u16>) -> Seq<u8> {
    seq![ESC, 0x5bu8] + join_codes(codes) + seq![0x6du8]
}

/// The bytes of one span: its style as a control sequence (or a reset
/// when it asks for one and has no style), then its text in UTF-8.
pub open spec fn span_ansi(w: TermWrite) -> Seq<u8> {
    let prefix = match w.style {
        Some(s) => sgr_sequence(style_codes(s)),
        None => if w.reset_style {
            sgr_sequence(seq![0u16])
        } else {
            Seq::empty()
        },
    };
    prefix + encode_utf8(w.text@)
}

/// The bytes of `spans`, one after the other.
pub open spec fn spans_ansi(spans: Seq<TermWrite>) -> Seq<u8>
    decreases spans.len(),
{
    if spans.len() == 0 {
        Seq::empty()
    } else {
        spans_ansi(spans.drop_last()) + span_ansi(spans.last())
    }
}

/// Each code as a parameter of its own, as `;` separates them.
pub open spec fn as_params(codes: Seq<u16>) -> Seq<Seq<u16>> {
    Seq::new(codes.len(), |i: int| seq![codes[i]])
}

/// Whether `c` is a colour that SGR codes of the 16-colour palette or
/// of truecolor express.
pub open spec fn sgr_expressible(c: VtColor) -> bool {
    match c {
        VtColor::Rgb(_, _, _) => true,
        VtColor::Palette(k) => k < 16,
    }
}

proof fn lemma_color_codes_apply(params: Seq<Seq<u16>>, i: int, c: VtColor, fg: bool, style: VtCellStyle, dflt: VtCellStyle)
    requires
        sgr_expressible(c),
        0 <= i,
        i + color_codes(c, fg).len() <= params.len(),
        forall|j: int| 0 <= j < color_codes(c, fg).len() ==> #[trigger] params[i + j] == seq![color_codes(c, fg)[j]],
    ensures
        sgr_apply(params, i, style, dflt) == sgr_apply(
            params,
            i + color_codes(c, fg).len(),
            if fg { VtCellStyle { color: c, ..style } } else { VtCellStyle { background: c, ..style } },
            dflt,
        ),
{
    let codes = color_codes(c, fg);
    assert(params[i + 0] == seq![codes[0]]);
    match c {
        VtColor::Rgb(r, g, b) => {
            assert(params[i + 1] == seq![codes[1]]);
            assert(params[i + 2] == seq![codes[2]]);
            assert(params[i + 3] == seq![codes[3]]);
            assert(params[i + 4] == seq![codes[4]]);
            assert((r as u16) % 256 == r);
            assert((g as u16) % 256 == g);
            assert((b as u16) % 256 == b);
        },
        VtColor::Palette(k) => {},
    }
}

/// Encoding a style and applying the codes gives back that style,
/// whatever the style before and the default: SGR encoding round-trips.
pub proof fn lemma_style_codes_round_trip(s: VtCellStyle, before: VtCellStyle, dflt: VtCellStyle)
    requires
        sgr_expressible(s.color),
        sgr_expressible(s.background),
    ensures
        sgr_apply(as_params(style_codes(s)), 0, before, dflt) == s,
{
    let codes = style_codes(s);
    let params = as_params(codes);
    let fgc = color_codes(s.color, true);
    let bgc = color_codes(s.background, false);
    assert(params[0] == seq![0u16]);
    assert(params[0].len() == 1 && params[0][0] == 0);
    assert forall|j: int| 0 <= j < fgc.len() implies #[trigger] params[1 + j] == seq![fgc[j]] by {
        assert(codes[1 + j] == fgc[j]);
    }
    lemma_color_codes_apply(params, 1, s.color, true, dflt, dflt);
    let mid = VtCellStyle { color: s.color, ..dflt };
    let k: int = 1 + fgc.len() as int;
    assert forall|j: int| 0 <= j < bgc.len() implies #[trigger] params[k + j] == seq![bgc[j]] by {
        assert(codes[k + j] == bgc[j]);
    }
    lemma_color_codes_apply(params, k, s.background, false, mid, dflt);
    assert(sgr_apply(params, k + bgc.len() as int, s, dflt) == s);
}

fn push_code(out: &mut Vec<u8>, code: u16, first: bool)
    ensures
        final(out)@ == old(out)@ + (if first { Seq::empty() } else { seq![0x3bu8] }) + decimal(code as nat),
{
    if !first {
        out.push(0x3b);
    }
    push_decimal(out, code as usize);
    assert(final(out)@ =~= old(out)@ + (if first { Seq::empty() } else { seq![0x3bu8] }) + decimal(code as nat));
}

fn color_codes_exec(c: VtColor, fg: bool) -> (v: Vec<u16>)
    ensures
        v@ == color_codes(c, fg),
{
    let base: u16 = if fg { 30 } else { 40 };
    let ext: u16 = if fg { 38 } else { 48 };
    let v: Vec<u16> = match c {
        VtColor::Rgb(r, g, b) => vec![ext, 2, r as u16, g as u16, b as u16],
        VtColor::Palette(k) => if k < 8 {
            vec![base + k as u16]
        } else if k < 16 {
            vec![base + 60 + k as u16 - 8]
        } else {
            vec![ext, 5, k as u16]
        },
    };
    assert(v@ =~= color_codes(c, fg));
    v
}

proof fn lemma_join_snoc(codes: Seq<u16>, c: u16)
    ensures
        join_codes(codes.push(c)) == join_codes(codes) + (if codes.len() == 0 { Seq::empty() } else { seq![0x3bu8] }) + decimal(c as nat),
    decreases codes.len(),
{
    if codes.len() == 0 {
        assert(join_codes(codes) =~= Seq::<u8>::empty());
        assert(codes.push(c).len() == 1);
        assert(join_codes(codes.push(c)) =~= Seq::<u8>::empty() + Seq::<u8>::empty() + decimal(c as nat));
    } else if codes.len() == 1 {
        assert(codes.push(c).drop_first() =~= seq![c]);
        assert(join_codes(seq![c]) == decimal(c as nat));
        assert(join_codes(codes.push(c)) =~= join_codes(codes) + seq![0x3bu8] + decimal(c as nat));
    } else {
        assert(codes.push(c).drop_first() =~= codes.drop_first().push(c));
        lemma_join_snoc(codes.drop_first(), c);
        assert(join_codes(codes.push(c)) =~= join_codes(codes) + seq![0x3bu8] + decimal(c as nat));
    }
}

/// Appends `ESC [ codes m` to `out`.
fn push_sgr(out: &mut Vec<u8>, codes: &Vec<u16>)
    ensures
        final(out)@ == old(out)@ + sgr_sequence(codes@),
{
    out.push(ESC);
    out.push(0x5b);
    let ghost start = out@;
    let mut i: usize = 0;
    while i < codes.len()
        invariant
            i <= codes@.len(),
            out@ == start + join_codes(codes@.take(i as int)),
        decreases codes@.len() - i,
    {
        proof {
            assert(codes@.take(i + 1) =~= codes@.take(i as int).push(codes@[i as int]));
            lemma_join_snoc(codes@.take(i as int), codes@[i as int]);
        }
        push_code(out, codes[i], i == 0);
        i = i + 1;
    }
    out.push(0x6d);
    assert(codes@.take(codes@.len() as int) =~= codes@);
    assert(final(out)@ =~= old(out)@ + sgr_sequence(codes@));
}

fn style_codes_exec(s: VtCellStyle) -> (v: Vec<u16>)
    ensures
        v@ == style_codes(s),
{
    let mut v: Vec<u16> = vec![0];
    let mut fg = color_codes_exec(s.color, true);
    let mut bg = color_codes_exec(s.background, false);
    v.append(&mut fg);
    v.append(&mut bg);
    assert(v@ =~= style_codes(s));
    v
}

/// Encodes `spans` as one ANSI byte stream: each span's style becomes
/// an SGR sequence that sets it exactly, a bare reset request becomes
/// `ESC [ 0 m`, and the text follows in UTF-8.
pub fn term_writes_to_ansi(spans: Vec<TermWrite>) -> (out: Vec<u8>)
    ensures
        out@ == spans_ansi(spans@),
{
    let mut out: Vec<u8> = Vec::new();
    let mut i: usize = 0;
    while i < spans.len()
        invariant
            i <= spans@.len(),
            out@ == spans_ansi(spans@.take(i as int)),
        decreases spans@.len() - i,
    {
        let w = &spans[i];
        let ghost before = out@;
        match w.style {
            Some(s) => {
                let codes = style_codes_exec(s);
                push_sgr(&mut out, &codes);
            },
            None => {
                if w.reset_style {
                    let codes: Vec<u16> = vec![0];
                    push_sgr(&mut out, &codes);
                }
            },
        }
        let ghost mid = out@;
        let bytes: &[u8] = w.text.as_str().as_bytes();
        let mut j: usize = 0;
        while j < bytes.len()
            invariant
                j <= bytes@.len(),
                out@ == mid + bytes@.take(j as int),
            decreases bytes@.len() - j,
        {
            out.push(bytes[j]);
            j = j + 1;
            assert(out@ =~= mid + bytes@.take(j as int));
        }
        proof {
            assert(bytes@.take(j as int) =~= bytes@);
            assert(bytes@ == encode_utf8(w.text@));
            assert(spans@.take(i + 1).drop_last() =~= spans@.take(i as int));
            assert(spans@.take(i + 1).last() == *w);
            assert(out@ =~= before + span_ansi(*w));
        }
        i = i + 1;
    }
    assert(spans@.take(spans@.len() as int) =~= spans@);
    out
}

} // verus!
