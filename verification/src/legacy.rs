//! The legacy-ping detector and responder: pre-1.6 clients probe with a
//! fixed `0xFE`-prefixed framing instead of a VarInt length prefix, and
//! are answered with a UTF-16 "kick" packet.

use vstd::prelude::*;

verus! {

use vstd::string::{StrSliceExecFns, StringExecFns};
use crate::ComposedConfigs;

/// The two legacy probe framings, told apart by the first peeked bytes:
/// Beta 1.8 through 1.3 send a lone `0xFE`, 1.4 through 1.6 follow it
/// with `0x01`.
#[derive(Debug, Clone, Copy, PartialEq, Eq, Structural)]
pub enum LegacyPingKind {
    Beta1_8To1_3,
    V1_4To1_6,
}

/// What the first peeked bytes of a connection say: nothing arrived yet,
/// a legacy probe of one of the two kinds, or modern length-prefixed
/// framing.
#[derive(Debug, Clone, Copy, PartialEq, Eq, Structural)]
pub enum PeekClass {
    Empty,
    Legacy(LegacyPingKind),
    Modern,
}

/// The classification of up to three peeked bytes: empty means not yet
/// fully received; a leading `0xFE` is a legacy probe, told apart by
/// whether a second byte `0x01` follows; anything else is modern framing.
pub open spec fn spec_classify(peeked: Seq<u8>) -> PeekClass {
    if peeked.len() == 0 {
        PeekClass::Empty
    } else if peeked[0] != 0xFE {
        PeekClass::Modern
    } else if peeked.len() >= 2 && peeked[1] == 0x01 {
        PeekClass::Legacy(LegacyPingKind::V1_4To1_6)
    } else {
        PeekClass::Legacy(LegacyPingKind::Beta1_8To1_3)
    }
}

/// Classifies the bytes peeked (not consumed) from the front of a
/// connection.
pub fn classify_first_bytes(peeked: &[u8]) -> (r: PeekClass)
    ensures
        r == spec_classify(peeked@),
{
    if peeked.len() == 0 {
        PeekClass::Empty
    } else if peeked[0] != 0xFE {
        PeekClass::Modern
    } else if peeked.len() >= 2 && peeked[1] == 0x01 {
        PeekClass::Legacy(LegacyPingKind::V1_4To1_6)
    } else {
        PeekClass::Legacy(LegacyPingKind::Beta1_8To1_3)
    }
}

/// `s` with every color code removed: a code pair is the section sign and
/// the one character after it, both removed together; a trailing lone
/// section sign at the end of the string is removed as well.
pub open spec fn strip_codes(s: Seq<char>) -> Seq<char>
    decreases s.len(),
{
    if s.len() == 0 {
        Seq::empty()
    } else if s[0] == '\u{00A7}' {
        if s.len() == 1 {
            Seq::empty()
        } else {
            strip_codes(s.skip(2))
        }
    } else {
        seq![s[0]] + strip_codes(s.skip(1))
    }
}

/// Relies on String::push: appends exactly the one character.
#[verifier::external_body]
fn push_char(s: &mut String, c: char)
    ensures
        final(s)@ == old(s)@ + seq![c],
{
    s.push(c);
}

/// Removes the legacy color codes from `s`, as the oldest probes cannot
/// render them.
pub fn strip_color_codes(s: &str) -> (r: String)
    ensures
        r@ == strip_codes(s@),
{
    let n = s.unicode_len();
    let mut out = String::new();
    let mut i: usize = 0;
    proof {
        assert(s@.skip(0) =~= s@);
        assert(out@ + strip_codes(s@) =~= strip_codes(s@));
    }
    while i < n
        invariant
            n == s@.len(),
            i <= n,
            strip_codes(s@) == out@ + strip_codes(s@.skip(i as int)),
        decreases n - i,
    {
        let c = s.get_char(i);
        if c == '\u{00A7}' {
            if i + 1 < n {
                proof {
                    assert(s@.skip(i as int).skip(2) =~= s@.skip(i as int + 2));
                }
                i = i + 2;
            } else {
                proof {
                    assert(s@.skip(i as int).len() == 1);
                    assert(s@.skip(n as int) =~= Seq::empty());
                }
                i = n;
            }
        } else {
            push_char(&mut out, c);
            proof {
                assert(s@.skip(i as int).skip(1) =~= s@.skip(i as int + 1));
                assert(out@ + strip_codes(s@.skip(i as int + 1)) =~= strip_codes(s@));
            }
            i = i + 1;
        }
    }
    proof {
        assert(s@.skip(n as int) =~= Seq::empty());
        assert(out@ + Seq::<char>::empty() =~= out@);
    }
    out
}

/// The characters of the legacy response: for 1.4 through 1.6, six
/// NUL-joined fields (the fixed prefix, the placeholder protocol version,
/// the MOTD, the version display text, and the two player counts); for
/// Beta 1.8 through 1.3, three section-sign-joined fields (the colorless
/// MOTD and the two player counts).
pub open spec fn legacy_payload(configs: ComposedConfigs, kind: LegacyPingKind) -> Seq<char> {
    match kind {
        LegacyPingKind::V1_4To1_6 => seq!['\u{00A7}', '1', '\u{0000}', '1', '2', '7', '\u{0000}']
            + configs.legacy_motd@ + seq!['\u{0000}'] + configs.legacy_version_name@
            + seq!['\u{0000}', '0', '\u{0000}', '0'],
        LegacyPingKind::Beta1_8To1_3 => configs.legacy_motd_colorless@
            + seq!['\u{00A7}', '0', '\u{00A7}', '0'],
    }
}

/// Builds the legacy response string for the probe kind.
fn build_legacy_payload(configs: &ComposedConfigs, kind: LegacyPingKind) -> (r: String)
    ensures
        r@ == legacy_payload(*configs, kind),
{
    let mut s = String::new();
    match kind {
        LegacyPingKind::V1_4To1_6 => {
            s.append("\u{00A7}1\u{0000}127\u{0000}");
            s.append(configs.legacy_motd.as_str());
            s.append("\u{0000}");
            s.append(configs.legacy_version_name.as_str());
            s.append("\u{0000}0\u{0000}0");
            proof {
                reveal_strlit("\u{00A7}1\u{0000}127\u{0000}");
                reveal_strlit("\u{0000}");
                reveal_strlit("\u{0000}0\u{0000}0");
                assert(s@ =~= legacy_payload(*configs, kind));
            }
        },
        LegacyPingKind::Beta1_8To1_3 => {
            s.append(configs.legacy_motd_colorless.as_str());
            s.append("\u{00A7}0\u{00A7}0");
            proof {
                reveal_strlit("\u{00A7}0\u{00A7}0");
                assert(s@ =~= legacy_payload(*configs, kind));
            }
        },
    }
    s
}

/// The UTF-16 code units of a character sequence.
pub uninterp spec fn utf16_units(s: Seq<char>) -> Seq<u16>;

/// Relies on str::encode_utf16: the UTF-16 code units of the string, a
/// function of its characters alone.
#[verifier::external_body]
fn encode_utf16_units(s: &str) -> (r: Vec<u16>)
    ensures
        r@ == utf16_units(s@),
{
    s.encode_utf16().collect()
}

/// The two bytes of `v`, big end first.
pub open spec fn be16(v: u16) -> Seq<u8> {
    seq![(v >> 8u16) as u8, (v & 0xff) as u8]
}

/// The code units, each as two big-endian bytes.
pub open spec fn concat_be16(units: Seq<u16>) -> Seq<u8>
    decreases units.len(),
{
    if units.len() == 0 {
        Seq::empty()
    } else {
        be16(units[0]) + concat_be16(units.skip(1))
    }
}

/// Splitting the units splits their bytes.
proof fn lemma_concat_be16_append(a: Seq<u16>, b: Seq<u16>)
    ensures
        concat_be16(a + b) == concat_be16(a) + concat_be16(b),
    decreases a.len(),
{
    if a.len() == 0 {
        assert(a + b =~= b);
        assert(concat_be16(a) + concat_be16(b) =~= concat_be16(b));
    } else {
        assert((a + b).skip(1) =~= a.skip(1) + b);
        lemma_concat_be16_append(a.skip(1), b);
        assert((a + b)[0] == a[0]);
        assert(be16(a[0]) + (concat_be16(a.skip(1)) + concat_be16(b)) =~= (be16(a[0])
            + concat_be16(a.skip(1))) + concat_be16(b));
    }
}

/// The legacy "kick" packet around the code units: the marker byte `0xFF`,
/// the unit count as a big-endian 16-bit value (wrapping, as the field is
/// only two bytes), then each unit as two big-endian bytes.
pub open spec fn kick_frame(units: Seq<u16>) -> Seq<u8> {
    seq![0xffu8] + be16((units.len() % 0x10000) as u16) + concat_be16(units)
}

/// Frames the legacy kick packet around the code units.
pub fn frame_kick_packet(units: &Vec<u16>) -> (r: Vec<u8>)
    ensures
        r@ == kick_frame(units@),
{
    let mut out: Vec<u8> = Vec::new();
    let count: u16 = (units.len() % 0x10000) as u16;
    out.push(0xff);
    out.push((count >> 8u16) as u8);
    out.push((count & 0xff) as u8);
    proof {
        assert(out@ =~= seq![0xffu8] + be16((units@.len() % 0x10000) as u16));
    }
    let mut i: usize = 0;
    while i < units.len()
        invariant
            i <= units@.len(),
            out@ == seq![0xffu8] + be16((units@.len() % 0x10000) as u16) + concat_be16(
                units@.take(i as int),
            ),
        decreases units@.len() - i,
    {
        let u = units[i];
        out.push((u >> 8u16) as u8);
        out.push((u & 0xff) as u8);
        proof {
            assert(units@.take(i as int + 1) =~= units@.take(i as int) + seq![units@[i as int]]);
            lemma_concat_be16_append(units@.take(i as int), seq![units@[i as int]]);
            assert(seq![units@[i as int]].skip(1) =~= Seq::<u16>::empty());
            assert(concat_be16(Seq::<u16>::empty()) == Seq::<u8>::empty());
            assert(be16(units@[i as int]) + Seq::<u8>::empty() =~= be16(units@[i as int]));
            assert(concat_be16(seq![units@[i as int]]) =~= be16(units@[i as int]));
            assert(out@ =~= seq![0xffu8] + be16((units@.len() % 0x10000) as u16) + concat_be16(
                units@.take(i as int + 1),
            ));
        }
        i = i + 1;
    }
    proof {
        assert(units@.take(units@.len() as int) =~= units@);
    }
    out
}

/// Builds the whole legacy response for the probe kind: the kick packet
/// around the UTF-16 form of the response string.
pub fn legacy_response(configs: &ComposedConfigs, kind: LegacyPingKind) -> (r: Vec<u8>)
    ensures
        r@ == kick_frame(utf16_units(legacy_payload(*configs, kind))),
{
    let payload = build_legacy_payload(configs, kind);
    let units = encode_utf16_units(payload.as_str());
    frame_kick_packet(&units)
}

} // verus!
