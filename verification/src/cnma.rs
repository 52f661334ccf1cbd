//! The `.cnma` text configuration format: a line-oriented, mode-dispatched
//! grammar for resource ids, level ordering, power definitions, pets and
//! embedded scripting code.
//!
//! Numeric fields the engine reads as floats (power multipliers, a pet's
//! jump height) are kept as their text tokens, so that nothing is lost in
//! either direction.

use vstd::prelude::*;
use vstd::string::StringSliceAdditionalSpecFns;

use crate::level_data::wobj_type::spec_lines_of;
use crate::lparse::bytes_eq;
use crate::text;

verus! {

/// Errors when dealing with `.cnma` files.
#[derive(Debug)]
pub enum Error {
    /// The file is not a CNM config file.
    NotCnmaFile,
    /// The entry at the given one-based line is corrupt.
    CorruptedEntry(usize),
    /// A record line appeared before any `MODE` line.
    NoMode,
    /// The file is corrupted; the string says why.
    Corrupted(String),
}

/// Whether a byte is ASCII whitespace, as the tokenizer splits it.
pub open spec fn spec_is_ws(c: u8) -> bool {
    c == 0x20 || (0x09 <= c <= 0x0d)
}

/// The whitespace-separated tokens of a byte string.
pub open spec fn spec_ws_tokens(b: Seq<u8>) -> Seq<Seq<u8>>
    decreases b.len(),
{
    if b.len() == 0 {
        Seq::empty()
    } else if spec_is_ws(b[0]) {
        spec_ws_tokens(b.drop_first())
    } else {
        let n = spec_token_len(b);
        if 0 < n <= b.len() {
            seq![b.take(n)] + spec_ws_tokens(b.skip(n))
        } else {
            seq![b]
        }
    }
}

/// The length of the leading non-whitespace run.
pub open spec fn spec_token_len(b: Seq<u8>) -> int
    decreases b.len(),
{
    if b.len() == 0 || spec_is_ws(b[0]) {
        0
    } else {
        1 + spec_token_len(b.drop_first())
    }
}

/// The token-run search stops at the first whitespace, or at the end.
proof fn lemma_token_len(s: Seq<u8>, i: int)
    requires
        0 <= i <= s.len(),
        forall|k: int| 0 <= k < i ==> !spec_is_ws(s[k]),
        i < s.len() ==> spec_is_ws(s[i]),
    ensures
        spec_token_len(s) == i,
    decreases s.len(),
{
    if s.len() > 0 && !spec_is_ws(s[0]) {
        lemma_token_len(s.drop_first(), i - 1);
    }
}

/// Splits a byte string into whitespace-separated tokens.
#[verifier::rlimit(60)]
pub fn split_ws_tokens(b: &[u8]) -> (r: Vec<Vec<u8>>)
    ensures
        r@.len() == spec_ws_tokens(b@).len(),
        forall|k: int| 0 <= k < r@.len() ==> (#[trigger] r@[k])@ == spec_ws_tokens(b@)[k],
{
    let mut r: Vec<Vec<u8>> = Vec::new();
    let mut pos: usize = 0;
    proof {
        assert(b@.skip(0) =~= b@);
    }
    while pos < b.len()
        invariant
            pos <= b@.len(),
            spec_ws_tokens(b@).len() == r@.len() + spec_ws_tokens(b@.skip(pos as int)).len(),
            forall|k: int| 0 <= k < r@.len() ==> (#[trigger] r@[k])@ == spec_ws_tokens(b@)[k],
            forall|k: int|
                0 <= k < spec_ws_tokens(b@.skip(pos as int)).len() ==> spec_ws_tokens(
                    b@.skip(pos as int),
                )[k] == spec_ws_tokens(b@)[r@.len() + k],
        decreases b.len() - pos,
    {
        let c = *vstd::slice::slice_index_get(b, pos);
        if c == 0x20 || (0x09 <= c && c <= 0x0d) {
            proof {
                assert(b@.skip(pos as int).drop_first() =~= b@.skip(pos as int + 1));
            }
            pos = pos + 1;
        } else {
            let ghost rest = b@.skip(pos as int);
            let mut j = pos;
            loop
                invariant
                    pos <= j <= b@.len(),
                    forall|k: int| pos <= k < j ==> !spec_is_ws(b@[k]),
                ensures
                    pos <= j <= b@.len(),
                    forall|k: int| pos <= k < j ==> !spec_is_ws(b@[k]),
                    j == b@.len() || spec_is_ws(b@[j as int]),
                decreases b.len() - j,
            {
                if j >= b.len() {
                    break ;
                }
                let dch = *vstd::slice::slice_index_get(b, j);
                if dch == 0x20 || (0x09 <= dch && dch <= 0x0d) {
                    break ;
                }
                j = j + 1;
            }
            proof {
                assert forall|k: int| 0 <= k < j - pos implies !spec_is_ws(rest[k]) by {
                    assert(rest[k] == b@[pos + k]);
                }
                if j < b@.len() {
                    assert(rest[j - pos] == b@[j as int]);
                }
                lemma_token_len(rest, j - pos);
            }
            let mut tok: Vec<u8> = Vec::new();
            let mut t = pos;
            while t < j
                invariant
                    pos <= t <= j <= b@.len(),
                    tok@ == b@.subrange(pos as int, t as int),
                decreases j - t,
            {
                tok.push(*vstd::slice::slice_index_get(b, t));
                t = t + 1;
                proof {
                    assert(tok@ =~= b@.subrange(pos as int, t as int));
                }
            }
            let ghost prev_r = r@;
            proof {
                assert(rest.take(j - pos) =~= b@.subrange(pos as int, j as int));
                assert(rest.skip(j - pos) =~= b@.skip(j as int));
                assert(spec_ws_tokens(rest) =~= seq![tok@] + spec_ws_tokens(b@.skip(j as int)));
            }
            r.push(tok);
            proof {
                assert forall|k: int| 0 <= k < r@.len() implies (#[trigger] r@[k])@
                    == spec_ws_tokens(b@)[k] by {
                    if k == prev_r.len() {
                        assert(spec_ws_tokens(rest)[0] == spec_ws_tokens(b@)[prev_r.len() as int]);
                    }
                }
                assert forall|k: int| 0 <= k < spec_ws_tokens(b@.skip(j as int)).len() implies
                    spec_ws_tokens(b@.skip(j as int))[k] == spec_ws_tokens(b@)[r@.len() + k] by {
                    assert(spec_ws_tokens(rest)[k + 1] == spec_ws_tokens(b@.skip(j as int))[k]);
                    assert(spec_ws_tokens(rest)[k + 1] == spec_ws_tokens(b@)[prev_r.len() + k
                        + 1]);
                }
            }
            pos = j;
        }
    }
    proof {
        assert(b@.skip(b@.len() as int) =~= Seq::<u8>::empty());
    }
    r
}

/// Whether a byte is an ASCII digit.
pub open spec fn spec_is_digit(c: u8) -> bool {
    0x30 <= c <= 0x39
}

/// The value of a digit run, folding left; meaningful when all bytes are
/// digits.
pub open spec fn spec_digits_value(b: Seq<u8>) -> int
    decreases b.len(),
{
    if b.len() == 0 {
        0
    } else {
        spec_digits_value(b.drop_last()) * 10 + (b.last() - 0x30)
    }
}

/// The digit run of a numeric token: the token with one optional leading
/// plus sign removed.
pub open spec fn spec_u32_digits(b: Seq<u8>) -> Seq<u8> {
    if b.len() > 0 && b[0] == 0x2b {
        b.drop_first()
    } else {
        b
    }
}

/// Whether a byte string parses as a `u32`: an optional plus sign, then at
/// least one digit, with a value in range.
pub open spec fn spec_u32_parse_ok(b: Seq<u8>) -> bool {
    let d = spec_u32_digits(b);
    d.len() > 0 && (forall|k: int| 0 <= k < d.len() ==> spec_is_digit(#[trigger] d[k]))
        && spec_digits_value(d) <= u32::MAX
}

/// The `u32` a byte string parses to.
pub open spec fn spec_u32_parsed(b: Seq<u8>) -> u32 {
    spec_digits_value(spec_u32_digits(b)) as u32
}

/// Parses a `u32` from bytes, as `str::parse::<u32>` does.
pub fn parse_u32_bytes(b: &[u8]) -> (r: Option<u32>)
    ensures
        r is Some <==> spec_u32_parse_ok(b@),
        r matches Some(v) ==> v == spec_u32_parsed(b@),
{
    let start: usize = if b.len() > 0 && *vstd::slice::slice_index_get(b, 0) == 0x2b {
        1
    } else {
        0
    };
    let ghost d = spec_u32_digits(b@);
    proof {
        assert(d =~= b@.skip(start as int));
    }
    if b.len() == start {
        return None;
    }
    let mut acc: u64 = 0;
    let mut i = start;
    while i < b.len()
        invariant
            start <= i <= b@.len(),
            start < b@.len(),
            d == b@.skip(start as int),
            d == spec_u32_digits(b@),
            acc == spec_digits_value(d.take(i - start)),
            acc <= u32::MAX,
            forall|k: int| start <= k < i ==> spec_is_digit(b@[k]),
        decreases b.len() - i,
    {
        let c = *vstd::slice::slice_index_get(b, i);
        if !(0x30 <= c && c <= 0x39) {
            proof {
                assert(d[i - start] == b@[i as int]);
                assert(!spec_u32_parse_ok(b@)) by {
                    if spec_u32_parse_ok(b@) {
                        assert(spec_is_digit(spec_u32_digits(b@)[i - start]));
                        assert(spec_u32_digits(b@)[i - start] == b@[i as int]);
                    }
                }
            }
            return None;
        }
        let digit = (c - 0x30) as u64;
        let next = acc * 10 + digit;
        if next > u32::MAX as u64 {
            proof {
                assert(d.take(i - start + 1).drop_last() =~= d.take(i - start));
                assert(d.take(i - start + 1).last() == b@[i as int]);
                assert(!spec_u32_parse_ok(b@)) by {
                    if spec_u32_parse_ok(b@) {
                        assert forall|k: int| 0 <= k < d.len() implies spec_is_digit(
                            #[trigger] d[k],
                        ) by {
                            assert(spec_is_digit(spec_u32_digits(b@)[k]));
                        }
                        lemma_digits_prefix(d, i - start + 1);
                        assert(d.take(d.len() as int) =~= d);
                    }
                }
            }
            return None;
        }
        acc = next;
        i = i + 1;
        proof {
            assert(d.take(i - start).drop_last() =~= d.take(i - start - 1));
            assert(d.take(i - start).last() == b@[i - 1]);
        }
    }
    proof {
        assert(d.take(d.len() as int) =~= d);
        assert forall|k: int| 0 <= k < d.len() implies spec_is_digit(#[trigger] d[k]) by {
            assert(d[k] == b@[start + k]);
        }
    }
    Some(acc as u32)
}

/// A digit run's value is nonnegative.
proof fn lemma_digits_nonneg(d: Seq<u8>)
    requires
        forall|k: int| 0 <= k < d.len() ==> spec_is_digit(#[trigger] d[k]),
    ensures
        spec_digits_value(d) >= 0,
    decreases d.len(),
{
    if d.len() > 0 {
        assert(forall|k: int|
            0 <= k < d.drop_last().len() ==> spec_is_digit(#[trigger] d.drop_last()[k]));
        lemma_digits_nonneg(d.drop_last());
    }
}

/// A digit run's value only grows as digits are appended.
proof fn lemma_digits_prefix(d: Seq<u8>, m: int)
    requires
        0 <= m <= d.len(),
        forall|k: int| 0 <= k < d.len() ==> spec_is_digit(#[trigger] d[k]),
    ensures
        spec_digits_value(d.take(m)) <= spec_digits_value(d.take(d.len() as int)),
    decreases d.len() - m,
{
    if m < d.len() {
        assert(forall|k: int|
            0 <= k < d.take(m).len() ==> spec_is_digit(#[trigger] d.take(m)[k]));
        lemma_digits_nonneg(d.take(m));
        assert(d.take(m + 1).drop_last() =~= d.take(m));
        assert(spec_digits_value(d.take(m + 1)) == spec_digits_value(d.take(m)) * 10 + (d[m]
            - 0x30));
        lemma_digits_prefix(d, m + 1);
    }
}

} // verus!

verus! {

/// A resource row of the `MUSIC` and `SOUNDS` modes: an id and a file path.
#[derive(Debug, Clone, PartialEq)]
pub struct ResourceId {
    /// The id the engine loads the resource under.
    pub id: u32,
    /// The file path, relative to the game's directory.
    pub path: String,
}

impl ResourceId {
    /// Parses a `<id> <path>` line; `line_num` is the zero-based line for
    /// error reporting.
    pub fn from_line(line_num: usize, line: &str) -> (r: Result<Self, Error>)
        requires
            line_num < usize::MAX,
        ensures
            ({
                let toks = spec_ws_tokens(line.spec_bytes());
                &&& (r is Ok <==> toks.len() >= 2 && spec_u32_parse_ok(toks[0])
                    && vstd::utf8::valid_utf8(toks[1]))
                &&& (r matches Ok(rid) ==> rid.id == spec_u32_parsed(toks[0]) && rid.path@
                    == vstd::utf8::decode_utf8(toks[1]))
                &&& (r matches Err(e) ==> e == Error::CorruptedEntry((line_num + 1) as usize))
            }),
    {
        let toks = split_ws_tokens(line.as_bytes());
        if toks.len() < 2 {
            return Err(Error::CorruptedEntry(line_num + 1));
        }
        let id = match parse_u32_bytes(toks[0].as_slice()) {
            Some(v) => v,
            None => {
                return Err(Error::CorruptedEntry(line_num + 1));
            },
        };
        let path = match text::string_from_utf8(bytes_clone(&toks[1])) {
            Some(s) => s,
            None => {
                return Err(Error::CorruptedEntry(line_num + 1));
            },
        };
        Ok(ResourceId { id, path })
    }
}

/// Copies a byte vector.
fn bytes_clone(v: &Vec<u8>) -> (r: Vec<u8>)
    ensures
        r@ == v@,
{
    vstd::slice::slice_to_vec(v.as_slice())
}

/// A power definition for a skin id. The engine reads the multiplier fields
/// as floats; they are kept here as their text tokens.
#[derive(Debug, Clone, PartialEq)]
pub struct MaxPowerDef {
    /// The skin id the definition applies to.
    pub id: u8,
    /// Speed multiplier, as written in the file.
    pub speed: String,
    /// Jump multiplier, as written in the file.
    pub jump: String,
    /// Gravity multiplier, as written in the file.
    pub gravity: String,
    /// Health drained per second, as written in the file.
    pub hpcost: String,
    /// Strength multiplier, as written in the file.
    pub strength: String,
    /// The double-jump ability, if any.
    pub ability: Option<MaxPowerAbility>,
}

/// An ability activated on a double jump.
#[derive(Debug, Clone, Copy, PartialEq, Eq, Structural)]
pub enum MaxPowerAbility {
    /// A plain double jump.
    DoubleJump,
    /// Flight, like the wings power.
    Flying,
    /// A shield for a moment after landing.
    DropShield,
    /// Bouncing on enemies without hurting them.
    MarioBounce,
}

/// The id an ability is stored under (0 means none).
pub open spec fn spec_ability_id(a: Option<MaxPowerAbility>) -> u32 {
    match a {
        Option::None => 0,
        Option::Some(MaxPowerAbility::DoubleJump) => 1,
        Option::Some(MaxPowerAbility::Flying) => 2,
        Option::Some(MaxPowerAbility::DropShield) => 3,
        Option::Some(MaxPowerAbility::MarioBounce) => 4,
    }
}

/// Pet behaviour settings. The jump height is kept as its text token.
#[derive(Debug, Clone, PartialEq)]
pub enum PetAI {
    /// The pet flies.
    Fly {
        /// Animation frames of the flying loop.
        num_fly_frames: u8,
    },
    /// The pet walks.
    Walk {
        ///
        num_idle_frames: u8,
        ///
        num_walk_frames: u8,
        ///
        num_fall_frames: u8,
    },
    /// The pet bounces.
    Bounce {
        ///
        num_idle_frames: u8,
        ///
        num_bounce_frames: u8,
        /// Jump height, as written in the file (the engine reads a float).
        jump_height: String,
        /// Whether it bounces while idle.
        bounce_idly: bool,
    },
}

/// A pet definition line of the `PETDEFS` mode.
#[derive(Debug, PartialEq)]
pub struct PetDef {
    /// The pet's name (quoted in the file).
    pub name: String,
    /// The base tile of its animation.
    pub animbase: (u16, u16),
    /// The base tile of its icon.
    pub iconbase: (u16, u16),
    /// Its behaviour.
    pub ai: PetAI,
    /// The id of its idle sound.
    pub idle_snd: i32,
}

/// What section a `.cnma` file is in, and that section's records.
#[derive(Debug, PartialEq)]
pub enum Mode {
    /// Music resource ids.
    MusicIds(Vec<ResourceId>),
    /// Sound resource ids.
    SoundIds(Vec<ResourceId>),
    /// A deprecated section whose lines are ignored.
    MusicVolumeOverride,
    /// The level-select order: level names and their unlock scores, in menu
    /// order.
    LevelSelectOrder(Vec<(String, u32)>),
    /// A power definition for one skin.
    MaxPowerDef(MaxPowerDef),
    /// Script code run at startup, verbatim.
    LuaAutorunCode(String),
    /// Pet definitions.
    PetDefs(Vec<PetDef>),
}

/// A `.cnma` configuration: the file's sections in order.
#[derive(Debug)]
pub struct Cnma {
    /// The sections of the file.
    pub modes: Vec<Mode>,
}

} // verus!

verus! {

/// Whether `b` starts with `p`.
pub open spec fn spec_starts_with(b: Seq<u8>, p: Seq<u8>) -> bool {
    b.len() >= p.len() && b.take(p.len() as int) == p
}

/// Whether `b` starts with `p`.
fn starts_with(b: &[u8], p: &[u8]) -> (r: bool)
    ensures
        r == spec_starts_with(b@, p@),
{
    if b.len() < p.len() {
        return false;
    }
    let mut i: usize = 0;
    while i < p.len()
        invariant
            i <= p@.len() <= b@.len(),
            forall|k: int| 0 <= k < i ==> b@[k] == p@[k],
        decreases p.len() - i,
    {
        if *vstd::slice::slice_index_get(b, i) != *vstd::slice::slice_index_get(p, i) {
            proof {
                assert(b@.take(p@.len() as int)[i as int] != p@[i as int]);
            }
            return false;
        }
        i = i + 1;
    }
    proof {
        assert(b@.take(p@.len() as int) =~= p@);
    }
    true
}

/// Whether a byte string parses as an `i32`: an optional sign, then at
/// least one digit, with a value in range.
pub open spec fn spec_i32_parse_ok(b: Seq<u8>) -> bool {
    if b.len() > 0 && b[0] == 0x2d {
        let d = b.drop_first();
        d.len() > 0 && (forall|k: int| 0 <= k < d.len() ==> spec_is_digit(#[trigger] d[k]))
            && spec_digits_value(d) <= 0x8000_0000
    } else {
        spec_u32_parse_ok(b) && spec_u32_parsed(b) <= i32::MAX
    }
}

/// The `i32` a byte string parses to.
pub open spec fn spec_i32_parsed(b: Seq<u8>) -> i32 {
    if b.len() > 0 && b[0] == 0x2d {
        (0 - spec_digits_value(b.drop_first())) as i32
    } else {
        spec_u32_parsed(b) as i32
    }
}

/// Parses an `i32` from bytes, as `str::parse::<i32>` does.
fn parse_i32_bytes(b: &[u8]) -> (r: Option<i32>)
    ensures
        r is Some <==> spec_i32_parse_ok(b@),
        r matches Some(v) ==> v == spec_i32_parsed(b@),
{
    if b.len() > 0 && *vstd::slice::slice_index_get(b, 0) == 0x2d {
        let rest = vstd::slice::slice_subrange(b, 1, b.len());
        proof {
            assert(rest@ =~= b@.drop_first());
            assert(rest@.len() > 0 ==> rest@[0] == b@[1]);
        }
        match parse_u32_bytes(rest) {
            Some(v) => {
                if rest.len() > 0 && *vstd::slice::slice_index_get(rest, 0) == 0x2b {
                    proof {
                        assert(!spec_i32_parse_ok(b@)) by {
                            if spec_i32_parse_ok(b@) {
                                assert(spec_is_digit(b@.drop_first()[0]));
                            }
                        }
                    }
                    return None;
                }
                proof {
                    assert(spec_u32_digits(rest@) == rest@);
                    assert forall|k: int| 0 <= k < b@.drop_first().len() implies spec_is_digit(
                        #[trigger] b@.drop_first()[k],
                    ) by {
                        assert(spec_is_digit(spec_u32_digits(rest@)[k]));
                    }
                    lemma_digits_nonneg(b@.drop_first());
                    assert(spec_digits_value(b@.drop_first()) == v as int);
                }
                if v > 0x8000_0000u32 {
                    return None;
                }
                if v == 0x8000_0000u32 {
                    Some(i32::MIN)
                } else {
                    Some(-(v as i32))
                }
            },
            None => {
                proof {
                    if spec_i32_parse_ok(b@) {
                        assert(spec_u32_digits(rest@) == rest@) by {
                            assert(spec_is_digit(b@.drop_first()[0]));
                            assert(rest@[0] != 0x2b);
                        }
                        assert forall|k: int| 0 <= k < spec_u32_digits(rest@).len() implies
                            spec_is_digit(#[trigger] spec_u32_digits(rest@)[k]) by {
                            assert(spec_is_digit(b@.drop_first()[k]));
                        }
                        assert(spec_u32_parse_ok(rest@));
                    }
                }
                None
            },
        }
    } else {
        match parse_u32_bytes(b) {
            Some(v) => {
                if v > i32::MAX as u32 {
                    return None;
                }
                Some(v as i32)
            },
            None => None,
        }
    }
}

/// The decimal digits of `x`.
pub open spec fn spec_u32_decimal(x: u32) -> Seq<u8>
    decreases x,
{
    if x < 10 {
        seq![(0x30 + x) as u8]
    } else {
        spec_u32_decimal(x / 10) + seq![(0x30 + x % 10) as u8]
    }
}

/// Appends the decimal digits of `x`.
fn push_u32_decimal(out: &mut Vec<u8>, x: u32)
    ensures
        final(out)@ == old(out)@ + spec_u32_decimal(x),
    decreases x,
{
    if x < 10 {
        out.push((0x30 + x) as u8);
        proof {
            assert(out@ =~= old(out)@ + spec_u32_decimal(x));
        }
    } else {
        push_u32_decimal(out, x / 10);
        out.push((0x30 + x % 10) as u8);
        proof {
            assert(out@ =~= old(out)@ + spec_u32_decimal(x));
        }
    }
}

/// The characters a byte string decodes to, or empty when it is not UTF-8.
pub open spec fn spec_chars_or_empty(b: Seq<u8>) -> Seq<char> {
    if vstd::utf8::valid_utf8(b) {
        vstd::utf8::decode_utf8(b)
    } else {
        Seq::empty()
    }
}

/// The decimal text of `x`, as characters.
pub open spec fn spec_dec_chars(x: u32) -> Seq<char> {
    spec_chars_or_empty(spec_u32_decimal(x))
}

/// The decimal text of `x`, as characters, with a minus sign when negative.
pub open spec fn spec_i32_chars(x: i32) -> Seq<char> {
    if x >= 0 {
        spec_dec_chars(x as u32)
    } else {
        spec_chars_or_empty(seq![0x2du8] + spec_u32_decimal((0 - x as int) as u32))
    }
}

/// The decimal text of `x`.
pub fn u32_string(x: u32) -> (r: String)
    ensures
        r@ == spec_chars_or_empty(spec_u32_decimal(x)),
{
    let mut out: Vec<u8> = Vec::new();
    push_u32_decimal(&mut out, x);
    match text::string_from_utf8(out) {
        Some(s) => s,
        None => String::new(),
    }
}

/// The decimal text of `x`, with a leading minus sign when negative.
pub fn i32_string(x: i32) -> (r: String)
    ensures
        x >= 0 ==> r@ == spec_chars_or_empty(spec_u32_decimal(x as u32)),
        x < 0 ==> r@ == spec_chars_or_empty(seq![0x2du8] + spec_u32_decimal((0 - x as int) as u32)),
{
    if x >= 0 {
        u32_string(x as u32)
    } else {
        let mag: u32 = if x == i32::MIN {
            0x8000_0000
        } else {
            (-x) as u32
        };
        let mut out: Vec<u8> = Vec::new();
        out.push(0x2d);
        push_u32_decimal(&mut out, mag);
        proof {
            assert(out@ =~= seq![0x2du8] + spec_u32_decimal(mag));
        }
        match text::string_from_utf8(out) {
            Some(s) => s,
            None => String::new(),
        }
    }
}

/// Splits a byte string at every space, keeping empty segments (as
/// `str::split(' ')` does).
pub open spec fn spec_split_sp(b: Seq<u8>) -> Seq<Seq<u8>>
    decreases b.len(),
{
    let i = spec_sp_len(b);
    if 0 <= i < b.len() {
        seq![b.take(i)] + spec_split_sp(b.skip(i + 1))
    } else {
        seq![b]
    }
}

/// The length of the leading run without a space.
pub open spec fn spec_sp_len(b: Seq<u8>) -> int
    decreases b.len(),
{
    if b.len() == 0 || b[0] == 0x20 {
        0
    } else {
        1 + spec_sp_len(b.drop_first())
    }
}

/// The space search stops at the first space, or at the end.
proof fn lemma_sp_len(s: Seq<u8>, i: int)
    requires
        0 <= i <= s.len(),
        forall|k: int| 0 <= k < i ==> s[k] != 0x20,
        i < s.len() ==> s[i] == 0x20,
    ensures
        spec_sp_len(s) == i,
    decreases s.len(),
{
    if s.len() > 0 && s[0] != 0x20 {
        lemma_sp_len(s.drop_first(), i - 1);
    }
}

/// Splits a byte string at every space, keeping empty segments.
fn split_on_space(b: &[u8]) -> (r: Vec<Vec<u8>>)
    ensures
        r@.len() == spec_split_sp(b@).len(),
        forall|k: int| 0 <= k < r@.len() ==> (#[trigger] r@[k])@ == spec_split_sp(b@)[k],
{
    let mut r: Vec<Vec<u8>> = Vec::new();
    let mut pos: usize = 0;
    proof {
        assert(b@.skip(0) =~= b@);
    }
    loop
        invariant
            pos <= b@.len(),
            spec_split_sp(b@).len() == r@.len() + spec_split_sp(b@.skip(pos as int)).len(),
            forall|k: int| 0 <= k < r@.len() ==> (#[trigger] r@[k])@ == spec_split_sp(b@)[k],
            forall|k: int|
                0 <= k < spec_split_sp(b@.skip(pos as int)).len() ==> spec_split_sp(
                    b@.skip(pos as int),
                )[k] == spec_split_sp(b@)[r@.len() + k],
        ensures
            r@.len() == spec_split_sp(b@).len(),
            forall|k: int| 0 <= k < r@.len() ==> (#[trigger] r@[k])@ == spec_split_sp(b@)[k],
        decreases b.len() + 1 - pos,
    {
        let ghost rest = b@.skip(pos as int);
        let mut j = pos;
        while j < b.len() && *vstd::slice::slice_index_get(b, j) != 0x20
            invariant
                pos <= j <= b@.len(),
                forall|k: int| pos <= k < j ==> b@[k] != 0x20,
            decreases b.len() - j,
        {
            j = j + 1;
        }
        proof {
            assert forall|k: int| 0 <= k < j - pos implies rest[k] != 0x20 by {
                assert(rest[k] == b@[pos + k]);
            }
            if j < b@.len() {
                assert(rest[j - pos] == b@[j as int]);
            }
            lemma_sp_len(rest, j - pos);
        }
        let mut seg: Vec<u8> = Vec::new();
        let mut t = pos;
        while t < j
            invariant
                pos <= t <= j <= b@.len(),
                seg@ == b@.subrange(pos as int, t as int),
            decreases j - t,
        {
            seg.push(*vstd::slice::slice_index_get(b, t));
            t = t + 1;
            proof {
                assert(seg@ =~= b@.subrange(pos as int, t as int));
            }
        }
        let ghost prev_r = r@;
        proof {
            assert(rest.take(j - pos) =~= b@.subrange(pos as int, j as int));
            if j < b@.len() {
                assert(rest.skip(j - pos + 1) =~= b@.skip(j + 1));
                assert(spec_split_sp(rest) =~= seq![seg@] + spec_split_sp(b@.skip(j + 1)));
            } else {
                assert(seg@ =~= rest);
                assert(spec_split_sp(rest) =~= seq![seg@]);
            }
        }
        r.push(seg);
        if j >= b.len() {
            proof {
                assert forall|k: int| 0 <= k < r@.len() implies (#[trigger] r@[k])@
                    == spec_split_sp(b@)[k] by {
                    if k == prev_r.len() {
                        assert(spec_split_sp(rest)[0] == spec_split_sp(b@)[prev_r.len() as int]);
                    }
                }
                assert(r@.len() == spec_split_sp(b@).len());
            }
            return r;
        }
        proof {
            assert forall|k: int| 0 <= k < r@.len() implies (#[trigger] r@[k])@ == spec_split_sp(
                b@,
            )[k] by {
                if k == prev_r.len() {
                    assert(spec_split_sp(rest)[0] == spec_split_sp(b@)[prev_r.len() as int]);
                }
            }
            assert forall|k: int| 0 <= k < spec_split_sp(b@.skip(j + 1)).len() implies #[trigger]
                spec_split_sp(b@.skip(j + 1))[k] == spec_split_sp(b@)[r@.len() + k] by {
                assert(spec_split_sp(rest)[k + 1] == spec_split_sp(b@.skip(j + 1))[k]);
                assert(spec_split_sp(rest)[k + 1] == spec_split_sp(b@)[prev_r.len() + k + 1]);
            }
        }
        pos = j + 1;
    }
}

} // verus!

verus! {

/// Bytes with all leading and trailing double quotes removed.
pub open spec fn spec_trim_quotes(b: Seq<u8>) -> Seq<u8>
    decreases b.len(),
{
    if b.len() > 0 && b.last() == 0x22 {
        spec_trim_quotes(b.drop_last())
    } else if b.len() > 0 && b[0] == 0x22 {
        spec_trim_quotes(b.drop_first())
    } else {
        b
    }
}

/// Removes all leading and trailing double quotes.
fn trim_quotes(mut v: Vec<u8>) -> (r: Vec<u8>)
    ensures
        r@ == spec_trim_quotes(v@),
{
    let ghost orig = v@;
    while v.len() > 0 && v[v.len() - 1] == 0x22
        invariant
            spec_trim_quotes(v@) == spec_trim_quotes(orig),
        decreases v.len(),
    {
        proof {
            assert(v@.drop_last() =~= v@.subrange(0, v@.len() - 1));
        }
        v.pop();
    }
    proof {
        assert(v@.skip(0) =~= v@);
    }
    let mut start: usize = 0;
    while start < v.len() && v[start] == 0x22
        invariant
            start <= v@.len(),
            spec_trim_quotes(v@.skip(start as int)) == spec_trim_quotes(orig),
            v@.len() == 0 || v@[v@.len() - 1] != 0x22,
            forall|k: int| 0 <= k < v@.len() ==> v@[k] == v@[k],
        decreases v.len() - start,
    {
        proof {
            assert(v@.skip(start as int).drop_first() =~= v@.skip(start as int + 1));
            assert(v@.skip(start as int).len() > 0 ==> v@.skip(start as int).last() == v@[v@.len()
                - 1]);
        }
        start = start + 1;
    }
    let mut r: Vec<u8> = Vec::new();
    let mut i = start;
    while i < v.len()
        invariant
            start <= i <= v@.len(),
            r@ == v@.subrange(start as int, i as int),
        decreases v.len() - i,
    {
        r.push(v[i]);
        i = i + 1;
        proof {
            assert(r@ =~= v@.subrange(start as int, i as int));
        }
    }
    proof {
        assert(r@ =~= v@.skip(start as int));
        if v@.skip(start as int).len() > 0 {
            assert(v@.skip(start as int).last() == v@[v@.len() - 1]);
        }
        assert(spec_trim_quotes(r@) == r@);
    }
    r
}

/// The `u16` a token parses to, or 0 when it does not parse.
pub open spec fn spec_u16_or_zero(b: Seq<u8>) -> u16 {
    if spec_u32_parse_ok(b) && spec_u32_parsed(b) <= u16::MAX {
        spec_u32_parsed(b) as u16
    } else {
        0u16
    }
}

/// The `u8` a token parses to, or the fallback when it does not parse.
pub open spec fn spec_u8_or(b: Seq<u8>, fallback: u8) -> u8 {
    if spec_u32_parse_ok(b) && spec_u32_parsed(b) <= u8::MAX {
        spec_u32_parsed(b) as u8
    } else {
        fallback
    }
}

/// A `u16` parsed from a token, or 0 (as the pet parser falls back).
fn parse_u16_or_zero(b: &[u8]) -> (r: u16)
    ensures
        r == (if spec_u32_parse_ok(b@) && spec_u32_parsed(b@) <= u16::MAX {
            spec_u32_parsed(b@) as u16
        } else {
            0u16
        }),
{
    match parse_u32_bytes(b) {
        Some(v) => if v <= 65535 {
            v as u16
        } else {
            0
        },
        None => 0,
    }
}

/// A `u8` parsed from a token, or `fallback`.
fn parse_u8_or(b: &[u8], fallback: u8) -> (r: u8)
    ensures
        r == (if spec_u32_parse_ok(b@) && spec_u32_parsed(b@) <= u8::MAX {
            spec_u32_parsed(b@) as u8
        } else {
            fallback
        }),
{
    match parse_u32_bytes(b) {
        Some(v) => if v <= 255 {
            v as u8
        } else {
            fallback
        },
        None => fallback,
    }
}

impl PetDef {
    /// Parses a pet definition line: a quoted name, four tile coordinates,
    /// an idle-sound id, then an AI discriminator (`f`, `w` or `b`) with its
    /// numeric fields. Unparsable numbers fall back to defaults, as the
    /// engine's reader does; `line` is the line number an error reports.
    pub fn from_string(s: &str, line: usize) -> (r: Result<Self, Error>)
        ensures
            ({
                let words = spec_split_sp(s.spec_bytes());
                &&& (r is Ok <==> spec_pet_line_ok(words))
                &&& (r matches Err(e) ==> e == Error::CorruptedEntry(line) && (words.len() < 7
                    || (words[6].len() == 0 || (words[6][0] != 0x66 && words[6][0] != 0x77
                        && words[6][0] != 0x62)) || (words[6][0] == 0x66 && words.len() < 8) || (
                    words[6][0] == 0x77 && words.len() < 10) || (words[6][0] == 0x62
                        && words.len() < 11)))
                &&& (r matches Ok(p) ==> {
                    &&& p.name@ == spec_chars_or_empty(spec_trim_quotes(words[0]))
                    &&& p.animbase.0 == spec_u16_or_zero(words[1])
                    &&& p.animbase.1 == spec_u16_or_zero(words[2])
                    &&& p.iconbase.0 == spec_u16_or_zero(words[3])
                    &&& p.iconbase.1 == spec_u16_or_zero(words[4])
                    &&& p.idle_snd == (if spec_i32_parse_ok(words[5]) {
                        spec_i32_parsed(words[5])
                    } else {
                        0i32
                    })
                    &&& (match p.ai {
                        PetAI::Fly { num_fly_frames } => words[6][0] == 0x66 && num_fly_frames
                            == spec_u8_or(words[7], 1),
                        PetAI::Walk { num_idle_frames, num_walk_frames, num_fall_frames } => {
                            &&& words[6][0] == 0x77
                            &&& num_idle_frames == spec_u8_or(words[7], 1)
                            &&& num_walk_frames == spec_u8_or(words[8], 1)
                            &&& num_fall_frames == spec_u8_or(words[9], 1)
                        },
                        PetAI::Bounce {
                            num_idle_frames,
                            num_bounce_frames,
                            jump_height,
                            bounce_idly,
                        } => {
                            &&& words[6][0] == 0x62
                            &&& num_idle_frames == spec_u8_or(words[7], 1)
                            &&& num_bounce_frames == spec_u8_or(words[8], 1)
                            &&& bounce_idly == (spec_i32_parse_ok(words[9])
                                && spec_i32_parsed(words[9]) != 0)
                            &&& jump_height@ == spec_chars_or_empty(words[10])
                        },
                    })
                })
            }),
    {
        let words = split_on_space(s.as_bytes());
        if words.len() < 7 {
            return Err(Error::CorruptedEntry(line));
        }
        let name = match text::string_from_utf8(trim_quotes(bytes_clone(&words[0]))) {
            Some(n) => n,
            None => String::new(),
        };
        let basex = parse_u16_or_zero(words[1].as_slice());
        let basey = parse_u16_or_zero(words[2].as_slice());
        let iconx = parse_u16_or_zero(words[3].as_slice());
        let icony = parse_u16_or_zero(words[4].as_slice());
        let idle_snd = match parse_i32_bytes(words[5].as_slice()) {
            Some(v) => v,
            None => 0,
        };
        let disc = &words[6];
        if disc.len() == 0 {
            return Err(Error::CorruptedEntry(line));
        }
        let d0 = disc[0];
        if d0 == 0x66 {
            if words.len() < 8 {
                return Err(Error::CorruptedEntry(line));
            }
            Ok(
                PetDef {
                    name,
                    animbase: (basex, basey),
                    iconbase: (iconx, icony),
                    idle_snd,
                    ai: PetAI::Fly { num_fly_frames: parse_u8_or(words[7].as_slice(), 1) },
                },
            )
        } else if d0 == 0x77 {
            if words.len() < 10 {
                return Err(Error::CorruptedEntry(line));
            }
            Ok(
                PetDef {
                    name,
                    animbase: (basex, basey),
                    iconbase: (iconx, icony),
                    idle_snd,
                    ai: PetAI::Walk {
                        num_idle_frames: parse_u8_or(words[7].as_slice(), 1),
                        num_walk_frames: parse_u8_or(words[8].as_slice(), 1),
                        num_fall_frames: parse_u8_or(words[9].as_slice(), 1),
                    },
                },
            )
        } else if d0 == 0x62 {
            if words.len() < 11 {
                return Err(Error::CorruptedEntry(line));
            }
            let bounce_idly = match parse_i32_bytes(words[9].as_slice()) {
                Some(v) => v != 0,
                None => false,
            };
            let jump_height = match text::string_from_utf8(bytes_clone(&words[10])) {
                Some(t) => t,
                None => String::new(),
            };
            Ok(
                PetDef {
                    name,
                    animbase: (basex, basey),
                    iconbase: (iconx, icony),
                    idle_snd,
                    ai: PetAI::Bounce {
                        num_idle_frames: parse_u8_or(words[7].as_slice(), 1),
                        num_bounce_frames: parse_u8_or(words[8].as_slice(), 1),
                        jump_height,
                        bounce_idly,
                    },
                },
            )
        } else {
            Err(Error::CorruptedEntry(line))
        }
    }

    /// The pet definition's file line: the quoted name, the four tile
    /// coordinates, the idle sound, then the AI discriminator and its
    /// numeric fields.
    pub fn as_string(&self) -> (r: String)
        ensures
            r@ == seq!['"'] + self.name@ + seq!['"', ' '] + spec_dec_chars(
                self.animbase.0 as u32,
            ) + seq![' '] + spec_dec_chars(self.animbase.1 as u32) + seq![' '] + spec_dec_chars(
                self.iconbase.0 as u32,
            ) + seq![' '] + spec_dec_chars(self.iconbase.1 as u32) + seq![' '] + spec_i32_chars(
                self.idle_snd,
            ) + seq![' '] + (match self.ai {
                PetAI::Fly { num_fly_frames } => seq!['f', ' '] + spec_dec_chars(
                    num_fly_frames as u32,
                ),
                PetAI::Walk { num_idle_frames, num_walk_frames, num_fall_frames } => seq![
                    'w',
                    ' ',
                ] + spec_dec_chars(num_idle_frames as u32) + seq![' '] + spec_dec_chars(
                    num_walk_frames as u32,
                ) + seq![' '] + spec_dec_chars(num_fall_frames as u32),
                PetAI::Bounce { num_idle_frames, num_bounce_frames, jump_height, bounce_idly } =>
                    seq!['b', ' '] + spec_dec_chars(num_idle_frames as u32) + seq![' ']
                    + spec_dec_chars(num_bounce_frames as u32) + seq![' '] + seq![
                    if bounce_idly {
                        '1'
                    } else {
                        '0'
                    },
                ] + seq![' '] + jump_height@,
            }),
    {
        proof {
            reveal_strlit("\"");
            reveal_strlit("\" ");
            reveal_strlit(" ");
            reveal_strlit("f ");
            reveal_strlit("w ");
            reveal_strlit("b ");
            reveal_strlit("1");
            reveal_strlit("0");
            assert("\""@ =~= seq!['"']);
            assert("\" "@ =~= seq!['"', ' ']);
            assert(" "@ =~= seq![' ']);
            assert("f "@ =~= seq!['f', ' ']);
            assert("w "@ =~= seq!['w', ' ']);
            assert("b "@ =~= seq!['b', ' ']);
            assert("1"@ =~= seq!['1']);
            assert("0"@ =~= seq!['0']);
        }
        let mut out = "\"".to_owned();
        vstd::string::StringExecFns::append(&mut out, self.name.as_str());
        vstd::string::StringExecFns::append(&mut out, "\" ");
        vstd::string::StringExecFns::append(&mut out, u32_string(self.animbase.0 as u32).as_str());
        vstd::string::StringExecFns::append(&mut out, " ");
        vstd::string::StringExecFns::append(&mut out, u32_string(self.animbase.1 as u32).as_str());
        vstd::string::StringExecFns::append(&mut out, " ");
        vstd::string::StringExecFns::append(&mut out, u32_string(self.iconbase.0 as u32).as_str());
        vstd::string::StringExecFns::append(&mut out, " ");
        vstd::string::StringExecFns::append(&mut out, u32_string(self.iconbase.1 as u32).as_str());
        vstd::string::StringExecFns::append(&mut out, " ");
        vstd::string::StringExecFns::append(&mut out, i32_string(self.idle_snd).as_str());
        vstd::string::StringExecFns::append(&mut out, " ");
        match &self.ai {
            PetAI::Fly { num_fly_frames } => {
                vstd::string::StringExecFns::append(&mut out, "f ");
                vstd::string::StringExecFns::append(
                    &mut out,
                    u32_string(*num_fly_frames as u32).as_str(),
                );
            },
            PetAI::Bounce { num_idle_frames, num_bounce_frames, jump_height, bounce_idly } => {
                vstd::string::StringExecFns::append(&mut out, "b ");
                vstd::string::StringExecFns::append(
                    &mut out,
                    u32_string(*num_idle_frames as u32).as_str(),
                );
                vstd::string::StringExecFns::append(&mut out, " ");
                vstd::string::StringExecFns::append(
                    &mut out,
                    u32_string(*num_bounce_frames as u32).as_str(),
                );
                vstd::string::StringExecFns::append(&mut out, " ");
                vstd::string::StringExecFns::append(
                    &mut out,
                    if *bounce_idly {
                        "1"
                    } else {
                        "0"
                    },
                );
                vstd::string::StringExecFns::append(&mut out, " ");
                vstd::string::StringExecFns::append(&mut out, jump_height.as_str());
            },
            PetAI::Walk { num_idle_frames, num_walk_frames, num_fall_frames } => {
                vstd::string::StringExecFns::append(&mut out, "w ");
                vstd::string::StringExecFns::append(
                    &mut out,
                    u32_string(*num_idle_frames as u32).as_str(),
                );
                vstd::string::StringExecFns::append(&mut out, " ");
                vstd::string::StringExecFns::append(
                    &mut out,
                    u32_string(*num_walk_frames as u32).as_str(),
                );
                vstd::string::StringExecFns::append(&mut out, " ");
                vstd::string::StringExecFns::append(
                    &mut out,
                    u32_string(*num_fall_frames as u32).as_str(),
                );
            },
        }
        proof {
            assert(out@ =~= seq!['"'] + self.name@ + seq!['"', ' '] + spec_dec_chars(
                self.animbase.0 as u32,
            ) + seq![' '] + spec_dec_chars(self.animbase.1 as u32) + seq![' '] + spec_dec_chars(
                self.iconbase.0 as u32,
            ) + seq![' '] + spec_dec_chars(self.iconbase.1 as u32) + seq![' '] + spec_i32_chars(
                self.idle_snd,
            ) + seq![' '] + (match self.ai {
                PetAI::Fly { num_fly_frames } => seq!['f', ' '] + spec_dec_chars(
                    num_fly_frames as u32,
                ),
                PetAI::Walk { num_idle_frames, num_walk_frames, num_fall_frames } => seq![
                    'w',
                    ' ',
                ] + spec_dec_chars(num_idle_frames as u32) + seq![' '] + spec_dec_chars(
                    num_walk_frames as u32,
                ) + seq![' '] + spec_dec_chars(num_fall_frames as u32),
                PetAI::Bounce { num_idle_frames, num_bounce_frames, jump_height, bounce_idly } =>
                    seq!['b', ' '] + spec_dec_chars(num_idle_frames as u32) + seq![' ']
                    + spec_dec_chars(num_bounce_frames as u32) + seq![' '] + seq![
                    if bounce_idly {
                        '1'
                    } else {
                        '0'
                    },
                ] + seq![' '] + jump_height@,
            }));
        }
        out
    }
}

} // verus!

verus! {

/// Finishes the active mode: a `LEVELSELECT_ORDER` section collects entries
/// in file order and is reversed here, reproducing the engine's ordering
/// convention.
fn append_mode(modes: &mut Vec<Mode>, current: Mode)
    ensures
        final(modes)@.len() == old(modes)@.len() + 1,
        spec_modes_view(final(modes)@) == spec_modes_view(old(modes)@).push(
            spec_finish_mode(spec_mode_view(current)),
        ),
{
    let ghost cur_view = spec_mode_view(current);
    let finished = match current {
        Mode::LevelSelectOrder(mut v) => {
            let ghost v0 = v@;
            let mut rev: Vec<(String, u32)> = Vec::new();
            while v.len() > 0
                invariant
                    v0 == v@ + rev@.reverse(),
                decreases v.len(),
            {
                let ghost before = v@;
                match v.pop() {
                    Some(e) => {
                        rev.push(e);
                        proof {
                            assert(v@ =~= before.drop_last());
                            assert(v0 =~= v@ + rev@.reverse());
                        }
                    },
                    None => {},
                }
            }
            proof {
                assert(rev@.reverse() =~= v0);
                assert(rev@ =~= v0.reverse());
                assert(rev@.map_values(|e: (String, u32)| (e.0@, e.1)) =~= v0.map_values(
                    |e: (String, u32)| (e.0@, e.1),
                ).reverse());
            }
            Mode::LevelSelectOrder(rev)
        },
        other => other,
    };
    proof {
        assert(spec_mode_view(finished) == spec_finish_mode(cur_view));
    }
    modes.push(finished);
    proof {
        assert(spec_modes_view(modes@) =~= spec_modes_view(old(modes)@).push(
            spec_finish_mode(cur_view),
        ));
    }
}

impl Cnma {
    /// Parses a configuration from text: lines are scanned in order, `MODE`
    /// lines switch the section (unless a multi-line section is open), and
    /// each other line is one record of the active section. `LUA_AUTORUN`
    /// runs to a literal `__ENDLUA__` line, `PETDEFS` to `ENDPETS`; a
    /// `LEVELSELECT_ORDER` section is stored reversed relative to the file.
    #[verifier::rlimit(90)]
    #[verifier::spinoff_prover]
    pub fn from_string(s: &str) -> (r: Result<Self, Error>)
        ensures
            ({
                let lns = spec_lines_of(vstd::utf8::encode_utf8(s@));
                &&& (r is Ok <==> spec_cnma_parse(lns) is Some)
                &&& (r matches Ok(c) ==> Some(spec_modes_view(c.modes@)) == spec_cnma_parse(lns))
            }),
    {
        let bytes = crate::text::string_to_bytes(s);
        let lines = crate::level_data::wobj_type::split_lines(bytes.as_slice());
        let ghost glines = spec_lines_of(vstd::utf8::encode_utf8(s@));
        let mut modes: Vec<Mode> = Vec::new();
        let mut current: Option<Mode> = None;
        let mut mode_locked = false;
        let mut line_num: usize = 0;
        proof {
            assert(spec_modes_view(Seq::<Mode>::empty()) =~= Seq::<ModeView>::empty());
        }
        while line_num < lines.len()
            invariant
                line_num <= lines@.len(),
                glines == spec_lines_of(vstd::utf8::encode_utf8(s@)),
                lines@.len() == glines.len(),
                forall|k: int| 0 <= k < glines.len() ==> (#[trigger] lines@[k])@ == glines[k],
                mode_locked == (match current {
                    Some(m) => spec_mode_locked(spec_mode_view(m)),
                    None => false,
                }),
                spec_cnma_parse(glines) == spec_cnma_parse_from(
                    glines,
                    line_num as int,
                    spec_modes_view(modes@),
                    match current {
                        Some(m) => Some(spec_mode_view(m)),
                        None => None::<ModeView>,
                    },
                ),
            decreases lines.len() - line_num,
        {
            let ghost gline = glines[line_num as int];
            let ghost pre_views = spec_modes_view(modes@);
            let ghost pre_current: Option<ModeView> = match &current {
                Some(m) => Some(spec_mode_view(*m)),
                None => None,
            };
            let line = &lines[line_num];
            proof {
                assert(line@ == gline);
            }
            if starts_with(line.as_slice(), "MODE".as_bytes()) && !mode_locked {
                match current {
                    Some(m) => {
                        append_mode(&mut modes, m);
                    },
                    None => {},
                }
                current = None;
                let ghost done1 = spec_modes_view(modes@);
                let toks = split_ws_tokens(line.as_slice());
                let ghost gtoks = spec_ws_tokens(gline);
                if toks.len() < 2 {
                    return Err(Error::Corrupted(
                        "a MODE line is missing its mode name".to_owned(),
                    ));
                }
                let name = &toks[1];
                proof {
                    assert(name@ == gtoks[1]);
                }
                current = if bytes_eq(name.as_slice(), "MUSIC".as_bytes()) {
                    let v: Vec<ResourceId> = Vec::new();
                    proof {
                        assert(v@.map_values(|r: ResourceId| (r.id, r.path@)) =~= Seq::<
                            (u32, Seq<char>),
                        >::empty());
                    }
                    Some(Mode::MusicIds(v))
                } else if bytes_eq(name.as_slice(), "SOUNDS".as_bytes()) {
                    let v: Vec<ResourceId> = Vec::new();
                    proof {
                        assert(v@.map_values(|r: ResourceId| (r.id, r.path@)) =~= Seq::<
                            (u32, Seq<char>),
                        >::empty());
                    }
                    Some(Mode::SoundIds(v))
                } else if bytes_eq(name.as_slice(), "MUSIC_VOLUME_OVERRIDE".as_bytes()) {
                    Some(Mode::MusicVolumeOverride)
                } else if bytes_eq(name.as_slice(), "LEVELSELECT_ORDER".as_bytes()) {
                    let v: Vec<(String, u32)> = Vec::new();
                    proof {
                        assert(v@.map_values(|e: (String, u32)| (e.0@, e.1)) =~= Seq::<
                            (Seq<char>, u32),
                        >::empty());
                    }
                    Some(Mode::LevelSelectOrder(v))
                } else if starts_with(name.as_slice(), "MAXPOWER".as_bytes()) {
                    // The skin id is parsed from the first digit onward.
                    let mut digit_at: usize = 0;
                    while digit_at < name.len() && !(0x30 <= name[digit_at] && name[digit_at]
                        <= 0x39)
                        invariant
                            digit_at <= name@.len(),
                            forall|k: int| 0 <= k < digit_at ==> !spec_is_digit(name@[k]),
                        decreases name.len() - digit_at,
                    {
                        digit_at = digit_at + 1;
                    }
                    proof {
                        lemma_first_digit(name@, digit_at as int);
                    }
                    let idtok = vstd::slice::slice_subrange(name.as_slice(), digit_at, name.len());
                    proof {
                        assert(idtok@ =~= name@.skip(digit_at as int));
                    }
                    let id = parse_u8_or(idtok, 0);
                    proof {
                        reveal_strlit("0");
                    }
                    Some(
                        Mode::MaxPowerDef(
                            MaxPowerDef {
                                id,
                                speed: "0".to_owned(),
                                jump: "0".to_owned(),
                                gravity: "0".to_owned(),
                                hpcost: "0".to_owned(),
                                strength: "0".to_owned(),
                                ability: None,
                            },
                        ),
                    )
                } else if bytes_eq(name.as_slice(), "LUA_AUTORUN".as_bytes()) {
                    mode_locked = true;
                    Some(Mode::LuaAutorunCode(String::new()))
                } else if bytes_eq(name.as_slice(), "PETDEFS".as_bytes()) {
                    let v: Vec<PetDef> = Vec::new();
                    proof {
                        assert(v@.map_values(|p: PetDef| spec_pet_view(p)) =~= Seq::<
                            PetDefView,
                        >::empty());
                    }
                    mode_locked = true;
                    Some(Mode::PetDefs(v))
                } else {
                    return Err(Error::Corrupted("unknown mode name".to_owned()));
                };
                proof {
                    match &current {
                        Some(m) => {
                            assert(spec_open_mode(gtoks[1]) == Some(spec_mode_view(*m)));
                            assert(spec_cnma_parse_from(glines, line_num as int, pre_views,
                                pre_current) == spec_cnma_parse_from(
                                glines,
                                line_num as int + 1,
                                done1,
                                Some(spec_mode_view(*m)),
                            ));
                        },
                        None => {
                            assert(false);
                        },
                    }
                }
            } else if starts_with(line.as_slice(), "__ENDLUA__".as_bytes()) && mode_locked {
                let cur = current;
                current = None;
                match cur {
                    Some(Mode::LuaAutorunCode(code)) => {
                        mode_locked = false;
                        let ghost code_view = code@;
                        modes.push(Mode::LuaAutorunCode(code));
                        proof {
                            assert(spec_modes_view(modes@) =~= pre_views.push(
                                ModeView::LuaAutorunCode(code_view),
                            ));
                        }
                    },
                    _ => {
                        return Err(
                            Error::Corrupted(
                                "__ENDLUA__ outside of a LUA_AUTORUN section".to_owned(),
                            ),
                        );
                    },
                }
            } else if starts_with(line.as_slice(), "ENDPETS".as_bytes()) && mode_locked {
                let cur = current;
                current = None;
                match cur {
                    Some(Mode::PetDefs(pets)) => {
                        mode_locked = false;
                        let ghost pets_view = pets@.map_values(|p: PetDef| spec_pet_view(p));
                        modes.push(Mode::PetDefs(pets));
                        proof {
                            assert(spec_modes_view(modes@) =~= pre_views.push(
                                ModeView::PetDefs(pets_view),
                            ));
                        }
                    },
                    _ => {
                        return Err(
                            Error::Corrupted("ENDPETS outside of a PETDEFS section".to_owned()),
                        );
                    },
                }
            } else {
                let cur = current;
                current = match cur {
                    Some(Mode::MusicIds(mut v)) => {
                        let ghost v0 = v@.map_values(|r: ResourceId| (r.id, r.path@));
                        proof {
                            assert(pre_current == Some(ModeView::MusicIds(v0)));
                        }
                        let line_str = match crate::text::string_from_utf8(bytes_clone(line)) {
                            Some(t) => t,
                            None => {
                                return Err(Error::CorruptedEntry(line_num + 1));
                            },
                        };
                        proof {
                            vstd::utf8::decode_utf8_encode_utf8(gline);
                        }
                        match ResourceId::from_line(line_num, line_str.as_str()) {
                            Ok(rid) => {
                                let ghost grid = (rid.id, rid.path@);
                                v.push(rid);
                                proof {
                                    assert(v@.map_values(|r: ResourceId| (r.id, r.path@))
                                        =~= v0.push(grid));
                                }
                            },
                            Err(e) => {
                                return Err(e);
                            },
                        }
                        proof {
                            assert(spec_fold_record(ModeView::MusicIds(v0), gline) == Some(
                                ModeView::MusicIds(v@.map_values(|r: ResourceId| (r.id, r.path@))),
                            ));
                        }
                        Some(Mode::MusicIds(v))
                    },
                    Some(Mode::SoundIds(mut v)) => {
                        let ghost v0 = v@.map_values(|r: ResourceId| (r.id, r.path@));
                        proof {
                            assert(pre_current == Some(ModeView::SoundIds(v0)));
                        }
                        let line_str = match crate::text::string_from_utf8(bytes_clone(line)) {
                            Some(t) => t,
                            None => {
                                return Err(Error::CorruptedEntry(line_num + 1));
                            },
                        };
                        proof {
                            vstd::utf8::decode_utf8_encode_utf8(gline);
                        }
                        match ResourceId::from_line(line_num, line_str.as_str()) {
                            Ok(rid) => {
                                let ghost grid = (rid.id, rid.path@);
                                v.push(rid);
                                proof {
                                    assert(v@.map_values(|r: ResourceId| (r.id, r.path@))
                                        =~= v0.push(grid));
                                }
                            },
                            Err(e) => {
                                return Err(e);
                            },
                        }
                        proof {
                            assert(spec_fold_record(ModeView::SoundIds(v0), gline) == Some(
                                ModeView::SoundIds(v@.map_values(|r: ResourceId| (r.id, r.path@))),
                            ));
                        }
                        Some(Mode::SoundIds(v))
                    },
                    Some(Mode::MusicVolumeOverride) => Some(Mode::MusicVolumeOverride),
                    Some(Mode::LevelSelectOrder(mut v)) => {
                        let ghost v0 = v@.map_values(|e: (String, u32)| (e.0@, e.1));
                        let toks = split_ws_tokens(line.as_slice());
                        if toks.len() < 2 {
                            return Err(Error::CorruptedEntry(line_num + 1));
                        }
                        let lvl = match crate::text::string_from_utf8(bytes_clone(&toks[0])) {
                            Some(t) => t,
                            None => {
                                return Err(Error::CorruptedEntry(line_num + 1));
                            },
                        };
                        let score = match parse_u32_bytes(toks[1].as_slice()) {
                            Some(n) => n,
                            None => 0,
                        };
                        let ghost gentry = (lvl@, score);
                        v.push((lvl, score));
                        proof {
                            assert(pre_current == Some(ModeView::LevelSelectOrder(v0)));
                            assert(v@.map_values(|e: (String, u32)| (e.0@, e.1)) =~= v0.push(
                                gentry,
                            ));
                            assert(spec_fold_record(ModeView::LevelSelectOrder(v0), gline)
                                == Some(ModeView::LevelSelectOrder(v0.push(gentry))));
                        }
                        Some(Mode::LevelSelectOrder(v))
                    },
                    Some(Mode::MaxPowerDef(mut def)) => {
                        let ghost d0 = MaxPowerDefView {
                            id: def.id,
                            speed: def.speed@,
                            jump: def.jump@,
                            gravity: def.gravity@,
                            hpcost: def.hpcost@,
                            strength: def.strength@,
                            ability: def.ability,
                        };
                        proof {
                            assert(pre_current == Some(ModeView::MaxPowerDef(d0)));
                        }
                        let toks = split_ws_tokens(line.as_slice());
                        if toks.len() < 2 {
                            return Err(Error::CorruptedEntry(line_num + 1));
                        }
                        let value = match crate::text::string_from_utf8(bytes_clone(&toks[1])) {
                            Some(t) => t,
                            None => {
                                return Err(Error::CorruptedEntry(line_num + 1));
                            },
                        };
                        let field = &toks[0];
                        if bytes_eq(field.as_slice(), "spd".as_bytes()) {
                            def.speed = value;
                        } else if bytes_eq(field.as_slice(), "jmp".as_bytes()) {
                            def.jump = value;
                        } else if bytes_eq(field.as_slice(), "grav".as_bytes()) {
                            def.gravity = value;
                        } else if bytes_eq(field.as_slice(), "hpcost".as_bytes()) {
                            def.hpcost = value;
                        } else if bytes_eq(field.as_slice(), "strength".as_bytes()) {
                            def.strength = value;
                        } else if bytes_eq(field.as_slice(), "ability".as_bytes()) {
                            let abid = match parse_i32_bytes(toks[1].as_slice()) {
                                Some(n) => n,
                                None => 0,
                            };
                            def.ability = if abid == 0 {
                                None
                            } else if abid == 1 {
                                Some(MaxPowerAbility::DoubleJump)
                            } else if abid == 2 {
                                Some(MaxPowerAbility::Flying)
                            } else if abid == 3 {
                                Some(MaxPowerAbility::DropShield)
                            } else if abid == 4 {
                                Some(MaxPowerAbility::MarioBounce)
                            } else {
                                return Err(Error::CorruptedEntry(line_num + 1));
                            };
                        } else {
                            return Err(Error::CorruptedEntry(line_num + 1));
                        }
                        proof {
                            assert(spec_fold_record(ModeView::MaxPowerDef(d0), gline) == Some(
                                ModeView::MaxPowerDef(
                                    MaxPowerDefView {
                                        id: def.id,
                                        speed: def.speed@,
                                        jump: def.jump@,
                                        gravity: def.gravity@,
                                        hpcost: def.hpcost@,
                                        strength: def.strength@,
                                        ability: def.ability,
                                    },
                                ),
                            ));
                        }
                        Some(Mode::MaxPowerDef(def))
                    },
                    Some(Mode::LuaAutorunCode(mut code)) => {
                        let ghost code0 = code@;
                        let line_str = match crate::text::string_from_utf8(bytes_clone(line)) {
                            Some(t) => t,
                            None => {
                                return Err(Error::CorruptedEntry(line_num + 1));
                            },
                        };
                        vstd::string::StringExecFns::append(&mut code, line_str.as_str());
                        vstd::string::StringExecFns::append(&mut code, "\n");
                        proof {
                            reveal_strlit("\n");
                            assert(pre_current == Some(ModeView::LuaAutorunCode(code0)));
                            assert(code@ =~= code0 + vstd::utf8::decode_utf8(gline) + seq![
                                '\n',
                            ]);
                            assert(spec_fold_record(ModeView::LuaAutorunCode(code0), gline)
                                == Some(ModeView::LuaAutorunCode(code@)));
                        }
                        Some(Mode::LuaAutorunCode(code))
                    },
                    Some(Mode::PetDefs(mut pets)) => {
                        let ghost pets0 = pets@.map_values(|p: PetDef| spec_pet_view(p));
                        proof {
                            assert(pre_current == Some(ModeView::PetDefs(pets0)));
                        }
                        let line_str = match crate::text::string_from_utf8(bytes_clone(line)) {
                            Some(t) => t,
                            None => {
                                return Err(Error::CorruptedEntry(line_num + 1));
                            },
                        };
                        proof {
                            vstd::utf8::decode_utf8_encode_utf8(gline);
                        }
                        match PetDef::from_string(line_str.as_str(), line_num) {
                            Ok(p) => {
                                let ghost gp = spec_pet_view(p);
                                proof {
                                    assert(gp == spec_pet_parsed(spec_split_sp(gline)));
                                }
                                pets.push(p);
                                proof {
                                    assert(pets@.map_values(|p: PetDef| spec_pet_view(p))
                                        =~= pets0.push(gp));
                                }
                            },
                            Err(e) => {
                                return Err(e);
                            },
                        }
                        proof {
                            assert(spec_fold_record(ModeView::PetDefs(pets0), gline) == Some(
                                ModeView::PetDefs(pets@.map_values(|p: PetDef| spec_pet_view(p))),
                            ));
                        }
                        Some(Mode::PetDefs(pets))
                    },
                    None => {
                        return Err(Error::NoMode);
                    },
                };
                proof {
                    match (&pre_current, &current) {
                        (Some(m0), Some(m1)) => {
                            assert(spec_fold_record(*m0, gline) == Some(spec_mode_view(*m1)));
                        },
                        _ => {},
                    }
                }
            }
            line_num = line_num + 1;
        }
        match current {
            Some(m) => {
                append_mode(&mut modes, m);
            },
            None => {},
        }
        Ok(Cnma { modes })
    }

    /// Writes the configuration back to text: one section per mode, a
    /// `LEVELSELECT_ORDER` section emitted in reverse of its stored order
    /// (undoing the reversal the parser applies), and the multi-line
    /// sections closed by their terminator lines.
    #[verifier::rlimit(100)]
    #[verifier::spinoff_prover]
    pub fn save_string(&self) -> (r: String)
        ensures
            r@ == spec_cnma_text(spec_modes_view(self.modes@), self.modes@.len() as int),
    {
        let ghost views = spec_modes_view(self.modes@);
        let mut contents = String::new();
        let mut m: usize = 0;
        while m < self.modes.len()
            invariant
                m <= self.modes@.len(),
                views == spec_modes_view(self.modes@),
                contents@ == spec_cnma_text(views, m as int),
            decreases self.modes.len() - m,
        {
            let ghost base = contents@;
            let ghost mview = views[m as int];
            match &self.modes[m] {
                Mode::MusicIds(v) => {
                    let ghost gv = v@.map_values(|r: ResourceId| (r.id, r.path@));
                    vstd::string::StringExecFns::append(&mut contents, "MODE MUSIC\n");
                    let ghost head = contents@;
                    let mut i: usize = 0;
                    while i < v.len()
                        invariant
                            i <= v@.len(),
                            gv == v@.map_values(|r: ResourceId| (r.id, r.path@)),
                            contents@ == head + spec_resource_lines(gv, i as int),
                        decreases v.len() - i,
                    {
                        vstd::string::StringExecFns::append(
                            &mut contents,
                            u32_string(v[i].id).as_str(),
                        );
                        vstd::string::StringExecFns::append(&mut contents, " ");
                        vstd::string::StringExecFns::append(&mut contents, v[i].path.as_str());
                        vstd::string::StringExecFns::append(&mut contents, "\n");
                        proof {
                            assert(contents@ =~= head + spec_resource_lines(gv, i as int + 1));
                        }
                        i = i + 1;
                    }
                    proof {
                        assert(contents@ =~= base + spec_mode_text(mview));
                    }
                },
                Mode::SoundIds(v) => {
                    let ghost gv = v@.map_values(|r: ResourceId| (r.id, r.path@));
                    vstd::string::StringExecFns::append(&mut contents, "MODE SOUNDS\n");
                    let ghost head = contents@;
                    let mut i: usize = 0;
                    while i < v.len()
                        invariant
                            i <= v@.len(),
                            gv == v@.map_values(|r: ResourceId| (r.id, r.path@)),
                            contents@ == head + spec_resource_lines(gv, i as int),
                        decreases v.len() - i,
                    {
                        vstd::string::StringExecFns::append(
                            &mut contents,
                            u32_string(v[i].id).as_str(),
                        );
                        vstd::string::StringExecFns::append(&mut contents, " ");
                        vstd::string::StringExecFns::append(&mut contents, v[i].path.as_str());
                        vstd::string::StringExecFns::append(&mut contents, "\n");
                        proof {
                            assert(contents@ =~= head + spec_resource_lines(gv, i as int + 1));
                        }
                        i = i + 1;
                    }
                    proof {
                        assert(contents@ =~= base + spec_mode_text(mview));
                    }
                },
                Mode::MusicVolumeOverride => {
                    vstd::string::StringExecFns::append(
                        &mut contents,
                        "MODE MUSIC_VOLUME_OVERRIDE\n",
                    );
                    proof {
                        assert(contents@ =~= base + spec_mode_text(mview));
                    }
                },
                Mode::LevelSelectOrder(v) => {
                    let ghost gv = v@.map_values(|e: (String, u32)| (e.0@, e.1));
                    vstd::string::StringExecFns::append(&mut contents, "MODE LEVELSELECT_ORDER\n");
                    let ghost head = contents@;
                    let mut i: usize = v.len();
                    while i > 0
                        invariant
                            i <= v@.len(),
                            gv == v@.map_values(|e: (String, u32)| (e.0@, e.1)),
                            contents@ == head + spec_order_emitted(gv, i as int),
                        decreases i,
                    {
                        i = i - 1;
                        vstd::string::StringExecFns::append(&mut contents, v[i].0.as_str());
                        vstd::string::StringExecFns::append(&mut contents, " ");
                        vstd::string::StringExecFns::append(
                            &mut contents,
                            u32_string(v[i].1).as_str(),
                        );
                        vstd::string::StringExecFns::append(&mut contents, "\n");
                        proof {
                            assert(contents@ =~= head + spec_order_emitted(gv, i as int));
                        }
                    }
                    proof {
                        assert(contents@ =~= base + spec_mode_text(mview));
                    }
                },
                Mode::MaxPowerDef(def) => {
                    vstd::string::StringExecFns::append(&mut contents, "MODE MAXPOWER");
                    vstd::string::StringExecFns::append(
                        &mut contents,
                        u32_string(def.id as u32).as_str(),
                    );
                    vstd::string::StringExecFns::append(&mut contents, "\nspd ");
                    vstd::string::StringExecFns::append(&mut contents, def.speed.as_str());
                    vstd::string::StringExecFns::append(&mut contents, "\njmp ");
                    vstd::string::StringExecFns::append(&mut contents, def.jump.as_str());
                    vstd::string::StringExecFns::append(&mut contents, "\ngrav ");
                    vstd::string::StringExecFns::append(&mut contents, def.gravity.as_str());
                    vstd::string::StringExecFns::append(&mut contents, "\nhpcost ");
                    vstd::string::StringExecFns::append(&mut contents, def.hpcost.as_str());
                    vstd::string::StringExecFns::append(&mut contents, "\nstrength ");
                    vstd::string::StringExecFns::append(&mut contents, def.strength.as_str());
                    vstd::string::StringExecFns::append(&mut contents, "\nability ");
                    vstd::string::StringExecFns::append(
                        &mut contents,
                        u32_string(ability_id(&def.ability)).as_str(),
                    );
                    vstd::string::StringExecFns::append(&mut contents, "\n");
                    proof {
                        assert(contents@ =~= base + spec_mode_text(mview));
                    }
                },
                Mode::LuaAutorunCode(code) => {
                    vstd::string::StringExecFns::append(&mut contents, "MODE LUA_AUTORUN\n");
                    vstd::string::StringExecFns::append(&mut contents, code.as_str());
                    vstd::string::StringExecFns::append(&mut contents, "__ENDLUA__\n");
                    proof {
                        assert(contents@ =~= base + spec_mode_text(mview));
                    }
                },
                Mode::PetDefs(pets) => {
                    let ghost gpets = pets@.map_values(|p: PetDef| spec_pet_view(p));
                    vstd::string::StringExecFns::append(&mut contents, "MODE PETDEFS\n");
                    let ghost head = contents@;
                    let mut i: usize = 0;
                    while i < pets.len()
                        invariant
                            i <= pets@.len(),
                            gpets == pets@.map_values(|p: PetDef| spec_pet_view(p)),
                            contents@ == head + spec_pet_lines(gpets, i as int),
                        decreases pets.len() - i,
                    {
                        vstd::string::StringExecFns::append(
                            &mut contents,
                            pets[i].as_string().as_str(),
                        );
                        vstd::string::StringExecFns::append(&mut contents, "\n");
                        proof {
                            assert(contents@ =~= head + spec_pet_lines(gpets, i as int + 1));
                        }
                        i = i + 1;
                    }
                    vstd::string::StringExecFns::append(&mut contents, "ENDPETS\n");
                    proof {
                        assert(contents@ =~= base + spec_mode_text(mview));
                    }
                },
            }
            proof {
                assert(contents@ =~= spec_cnma_text(views, m as int + 1));
            }
            m = m + 1;
        }
        contents
    }
}

/// The id an ability is stored under.
pub fn ability_id(a: &Option<MaxPowerAbility>) -> (r: u32)
    ensures
        r == spec_ability_id(*a),
{
    match a {
        None => 0,
        Some(MaxPowerAbility::DoubleJump) => 1,
        Some(MaxPowerAbility::Flying) => 2,
        Some(MaxPowerAbility::DropShield) => 3,
        Some(MaxPowerAbility::MarioBounce) => 4,
    }
}

} // verus!

verus! {

/// Spec-level view of a power definition.
pub struct MaxPowerDefView {
    /// The skin id.
    pub id: u8,
    /// The five numeric tokens, as text.
    pub speed: Seq<char>,
    ///
    pub jump: Seq<char>,
    ///
    pub gravity: Seq<char>,
    ///
    pub hpcost: Seq<char>,
    ///
    pub strength: Seq<char>,
    /// The double-jump ability.
    pub ability: Option<MaxPowerAbility>,
}

/// Spec-level view of a pet's behaviour.
pub enum PetAIView {
    ///
    Fly { ///
        num_fly_frames: u8 },
    ///
    Walk {
        ///
        num_idle_frames: u8,
        ///
        num_walk_frames: u8,
        ///
        num_fall_frames: u8,
    },
    ///
    Bounce {
        ///
        num_idle_frames: u8,
        ///
        num_bounce_frames: u8,
        ///
        jump_height: Seq<char>,
        ///
        bounce_idly: bool,
    },
}

/// Spec-level view of a pet definition.
pub struct PetDefView {
    ///
    pub name: Seq<char>,
    ///
    pub animbase: (u16, u16),
    ///
    pub iconbase: (u16, u16),
    ///
    pub ai: PetAIView,
    ///
    pub idle_snd: i32,
}

/// Spec-level view of a section.
pub enum ModeView {
    /// Music resource rows (id, path).
    MusicIds(Seq<(u32, Seq<char>)>),
    /// Sound resource rows (id, path).
    SoundIds(Seq<(u32, Seq<char>)>),
    ///
    MusicVolumeOverride,
    /// Level names and scores, in menu order.
    LevelSelectOrder(Seq<(Seq<char>, u32)>),
    ///
    MaxPowerDef(MaxPowerDefView),
    /// The script text.
    LuaAutorunCode(Seq<char>),
    ///
    PetDefs(Seq<PetDefView>),
}

/// The view of a pet's behaviour.
pub open spec fn spec_pet_ai_view(ai: PetAI) -> PetAIView {
    match ai {
        PetAI::Fly { num_fly_frames } => PetAIView::Fly { num_fly_frames },
        PetAI::Walk { num_idle_frames, num_walk_frames, num_fall_frames } => PetAIView::Walk {
            num_idle_frames,
            num_walk_frames,
            num_fall_frames,
        },
        PetAI::Bounce { num_idle_frames, num_bounce_frames, jump_height, bounce_idly } =>
            PetAIView::Bounce {
            num_idle_frames,
            num_bounce_frames,
            jump_height: jump_height@,
            bounce_idly,
        },
    }
}

/// The view of a pet definition.
pub open spec fn spec_pet_view(p: PetDef) -> PetDefView {
    PetDefView {
        name: p.name@,
        animbase: p.animbase,
        iconbase: p.iconbase,
        ai: spec_pet_ai_view(p.ai),
        idle_snd: p.idle_snd,
    }
}

/// The view of a section.
pub open spec fn spec_mode_view(m: Mode) -> ModeView {
    match m {
        Mode::MusicIds(v) => ModeView::MusicIds(
            v@.map_values(|r: ResourceId| (r.id, r.path@)),
        ),
        Mode::SoundIds(v) => ModeView::SoundIds(
            v@.map_values(|r: ResourceId| (r.id, r.path@)),
        ),
        Mode::MusicVolumeOverride => ModeView::MusicVolumeOverride,
        Mode::LevelSelectOrder(v) => ModeView::LevelSelectOrder(
            v@.map_values(|e: (String, u32)| (e.0@, e.1)),
        ),
        Mode::MaxPowerDef(d) => ModeView::MaxPowerDef(
            MaxPowerDefView {
                id: d.id,
                speed: d.speed@,
                jump: d.jump@,
                gravity: d.gravity@,
                hpcost: d.hpcost@,
                strength: d.strength@,
                ability: d.ability,
            },
        ),
        Mode::LuaAutorunCode(code) => ModeView::LuaAutorunCode(code@),
        Mode::PetDefs(pets) => ModeView::PetDefs(pets@.map_values(|p: PetDef| spec_pet_view(p))),
    }
}

/// The views of a section list.
pub open spec fn spec_modes_view(modes: Seq<Mode>) -> Seq<ModeView> {
    modes.map_values(|m: Mode| spec_mode_view(m))
}

/// A finished section: a level-select section reverses into menu order.
pub open spec fn spec_finish_mode(m: ModeView) -> ModeView {
    match m {
        ModeView::LevelSelectOrder(v) => ModeView::LevelSelectOrder(v.reverse()),
        other => other,
    }
}

/// The UTF-8 bytes of a literal, for matching keywords.
pub open spec fn spec_kw(s: &str) -> Seq<u8> {
    vstd::utf8::encode_utf8(s@)
}

/// The index of the first ASCII digit, or the length when there is none.
pub open spec fn spec_first_digit(b: Seq<u8>) -> int
    decreases b.len(),
{
    if b.len() == 0 {
        0
    } else if spec_is_digit(b[0]) {
        0
    } else {
        1 + spec_first_digit(b.drop_first())
    }
}

/// The digit search stops at the first digit, or at the end.
proof fn lemma_first_digit(s: Seq<u8>, i: int)
    requires
        0 <= i <= s.len(),
        forall|k: int| 0 <= k < i ==> !spec_is_digit(s[k]),
        i < s.len() ==> spec_is_digit(s[i]),
    ensures
        spec_first_digit(s) == i,
    decreases s.len(),
{
    if s.len() > 0 && !spec_is_digit(s[0]) {
        lemma_first_digit(s.drop_first(), i - 1);
    }
}

/// The section a `MODE` line's name token opens, or `None` for an unknown
/// name.
pub open spec fn spec_open_mode(name: Seq<u8>) -> Option<ModeView> {
    if name == spec_kw("MUSIC") {
        Some(ModeView::MusicIds(Seq::empty()))
    } else if name == spec_kw("SOUNDS") {
        Some(ModeView::SoundIds(Seq::empty()))
    } else if name == spec_kw("MUSIC_VOLUME_OVERRIDE") {
        Some(ModeView::MusicVolumeOverride)
    } else if name == spec_kw("LEVELSELECT_ORDER") {
        Some(ModeView::LevelSelectOrder(Seq::empty()))
    } else if spec_starts_with(name, spec_kw("MAXPOWER")) {
        Some(
            ModeView::MaxPowerDef(
                MaxPowerDefView {
                    id: spec_u8_or(name.skip(spec_first_digit(name)), 0),
                    speed: spec_kw_chars("0"),
                    jump: spec_kw_chars("0"),
                    gravity: spec_kw_chars("0"),
                    hpcost: spec_kw_chars("0"),
                    strength: spec_kw_chars("0"),
                    ability: None,
                },
            ),
        )
    } else if name == spec_kw("LUA_AUTORUN") {
        Some(ModeView::LuaAutorunCode(Seq::empty()))
    } else if name == spec_kw("PETDEFS") {
        Some(ModeView::PetDefs(Seq::empty()))
    } else {
        None
    }
}

/// The characters of a literal.
pub open spec fn spec_kw_chars(s: &str) -> Seq<char> {
    s@
}

/// One record line folded into the open section, or `None` when the line is
/// corrupt for that section.
pub open spec fn spec_fold_record(m: ModeView, line: Seq<u8>) -> Option<ModeView> {
    let toks = spec_ws_tokens(line);
    match m {
        ModeView::MusicIds(v) => if toks.len() >= 2 && vstd::utf8::valid_utf8(line)
            && spec_u32_parse_ok(toks[0]) && vstd::utf8::valid_utf8(toks[1]) {
            Some(
                ModeView::MusicIds(
                    v.push((spec_u32_parsed(toks[0]), vstd::utf8::decode_utf8(toks[1]))),
                ),
            )
        } else {
            None
        },
        ModeView::SoundIds(v) => if toks.len() >= 2 && vstd::utf8::valid_utf8(line)
            && spec_u32_parse_ok(toks[0]) && vstd::utf8::valid_utf8(toks[1]) {
            Some(
                ModeView::SoundIds(
                    v.push((spec_u32_parsed(toks[0]), vstd::utf8::decode_utf8(toks[1]))),
                ),
            )
        } else {
            None
        },
        ModeView::MusicVolumeOverride => Some(ModeView::MusicVolumeOverride),
        ModeView::LevelSelectOrder(v) => if toks.len() >= 2 && vstd::utf8::valid_utf8(toks[0]) {
            Some(
                ModeView::LevelSelectOrder(
                    v.push(
                        (
                            vstd::utf8::decode_utf8(toks[0]),
                            if spec_u32_parse_ok(toks[1]) {
                                spec_u32_parsed(toks[1])
                            } else {
                                0u32
                            },
                        ),
                    ),
                ),
            )
        } else {
            None
        },
        ModeView::MaxPowerDef(d) => if toks.len() >= 2 && vstd::utf8::valid_utf8(toks[1]) {
            let value = vstd::utf8::decode_utf8(toks[1]);
            if toks[0] == spec_kw("spd") {
                Some(ModeView::MaxPowerDef(MaxPowerDefView { speed: value, ..d }))
            } else if toks[0] == spec_kw("jmp") {
                Some(ModeView::MaxPowerDef(MaxPowerDefView { jump: value, ..d }))
            } else if toks[0] == spec_kw("grav") {
                Some(ModeView::MaxPowerDef(MaxPowerDefView { gravity: value, ..d }))
            } else if toks[0] == spec_kw("hpcost") {
                Some(ModeView::MaxPowerDef(MaxPowerDefView { hpcost: value, ..d }))
            } else if toks[0] == spec_kw("strength") {
                Some(ModeView::MaxPowerDef(MaxPowerDefView { strength: value, ..d }))
            } else if toks[0] == spec_kw("ability") {
                let abid: i32 = if spec_i32_parse_ok(toks[1]) {
                    spec_i32_parsed(toks[1])
                } else {
                    0
                };
                if abid == 0 {
                    Some(ModeView::MaxPowerDef(MaxPowerDefView { ability: None, ..d }))
                } else if abid == 1 {
                    Some(
                        ModeView::MaxPowerDef(
                            MaxPowerDefView { ability: Some(MaxPowerAbility::DoubleJump), ..d },
                        ),
                    )
                } else if abid == 2 {
                    Some(
                        ModeView::MaxPowerDef(
                            MaxPowerDefView { ability: Some(MaxPowerAbility::Flying), ..d },
                        ),
                    )
                } else if abid == 3 {
                    Some(
                        ModeView::MaxPowerDef(
                            MaxPowerDefView { ability: Some(MaxPowerAbility::DropShield), ..d },
                        ),
                    )
                } else if abid == 4 {
                    Some(
                        ModeView::MaxPowerDef(
                            MaxPowerDefView { ability: Some(MaxPowerAbility::MarioBounce), ..d },
                        ),
                    )
                } else {
                    None
                }
            } else {
                None
            }
        } else {
            None
        },
        ModeView::LuaAutorunCode(code) => if vstd::utf8::valid_utf8(line) {
            Some(ModeView::LuaAutorunCode(code + vstd::utf8::decode_utf8(line) + seq!['\n']))
        } else {
            None
        },
        ModeView::PetDefs(pets) => if vstd::utf8::valid_utf8(line) && spec_pet_line_ok(
            spec_split_sp(line),
        ) {
            Some(ModeView::PetDefs(pets.push(spec_pet_parsed(spec_split_sp(line)))))
        } else {
            None
        },
    }
}

/// Whether a pet line's tokens parse.
pub open spec fn spec_pet_line_ok(words: Seq<Seq<u8>>) -> bool {
    &&& words.len() >= 7
    &&& words[6].len() > 0
    &&& ((words[6][0] == 0x66 && words.len() >= 8) || (words[6][0] == 0x77 && words.len() >= 10)
        || (words[6][0] == 0x62 && words.len() >= 11))
}

/// The pet definition a line's tokens parse to.
pub open spec fn spec_pet_parsed(words: Seq<Seq<u8>>) -> PetDefView {
    PetDefView {
        name: spec_chars_or_empty(spec_trim_quotes(words[0])),
        animbase: (spec_u16_or_zero(words[1]), spec_u16_or_zero(words[2])),
        iconbase: (spec_u16_or_zero(words[3]), spec_u16_or_zero(words[4])),
        idle_snd: if spec_i32_parse_ok(words[5]) {
            spec_i32_parsed(words[5])
        } else {
            0
        },
        ai: if words[6][0] == 0x66 {
            PetAIView::Fly { num_fly_frames: spec_u8_or(words[7], 1) }
        } else if words[6][0] == 0x77 {
            PetAIView::Walk {
                num_idle_frames: spec_u8_or(words[7], 1),
                num_walk_frames: spec_u8_or(words[8], 1),
                num_fall_frames: spec_u8_or(words[9], 1),
            }
        } else {
            PetAIView::Bounce {
                num_idle_frames: spec_u8_or(words[7], 1),
                num_bounce_frames: spec_u8_or(words[8], 1),
                jump_height: spec_chars_or_empty(words[10]),
                bounce_idly: spec_i32_parse_ok(words[9]) && spec_i32_parsed(words[9]) != 0,
            }
        },
    }
}

/// Whether the open section is locked (multi-line until its terminator).
pub open spec fn spec_mode_locked(m: ModeView) -> bool {
    m is LuaAutorunCode || m is PetDefs
}

/// The parse of the lines from `i` on, given the finished sections and the
/// open one; `None` is a parse error.
pub open spec fn spec_cnma_parse_from(
    lines: Seq<Seq<u8>>,
    i: int,
    done: Seq<ModeView>,
    current: Option<ModeView>,
) -> Option<Seq<ModeView>>
    decreases lines.len() - i,
{
    if i < 0 || i >= lines.len() {
        Some(
            match current {
                Some(m) => done.push(spec_finish_mode(m)),
                None => done,
            },
        )
    } else {
        let line = lines[i];
        let locked = match current {
            Some(m) => spec_mode_locked(m),
            None => false,
        };
        if spec_starts_with(line, spec_kw("MODE")) && !locked {
            let done1 = match current {
                Some(m) => done.push(spec_finish_mode(m)),
                None => done,
            };
            let toks = spec_ws_tokens(line);
            if toks.len() < 2 {
                None
            } else {
                match spec_open_mode(toks[1]) {
                    Some(m) => spec_cnma_parse_from(lines, i + 1, done1, Some(m)),
                    None => None,
                }
            }
        } else if spec_starts_with(line, spec_kw("__ENDLUA__")) && locked {
            match current {
                Some(ModeView::LuaAutorunCode(code)) => spec_cnma_parse_from(
                    lines,
                    i + 1,
                    done.push(ModeView::LuaAutorunCode(code)),
                    None,
                ),
                _ => None,
            }
        } else if spec_starts_with(line, spec_kw("ENDPETS")) && locked {
            match current {
                Some(ModeView::PetDefs(pets)) => spec_cnma_parse_from(
                    lines,
                    i + 1,
                    done.push(ModeView::PetDefs(pets)),
                    None,
                ),
                _ => None,
            }
        } else {
            match current {
                Some(m) => match spec_fold_record(m, line) {
                    Some(m1) => spec_cnma_parse_from(lines, i + 1, done, Some(m1)),
                    None => None,
                },
                None => None,
            }
        }
    }
}

/// The parse of a whole file's lines.
pub open spec fn spec_cnma_parse(lines: Seq<Seq<u8>>) -> Option<Seq<ModeView>> {
    spec_cnma_parse_from(lines, 0, Seq::empty(), None)
}

} // verus!

verus! {

/// The text of one resource row.
pub open spec fn spec_resource_line(r: (u32, Seq<char>)) -> Seq<char> {
    spec_dec_chars(r.0) + spec_kw_chars(" ") + r.1 + spec_kw_chars("\n")
}

/// The text of the first `n` resource rows.
pub open spec fn spec_resource_lines(v: Seq<(u32, Seq<char>)>, n: int) -> Seq<char>
    decreases n,
{
    if n <= 0 {
        Seq::empty()
    } else {
        spec_resource_lines(v, n - 1) + spec_resource_line(v[n - 1])
    }
}

/// The text of one level-select row.
pub open spec fn spec_order_line(e: (Seq<char>, u32)) -> Seq<char> {
    e.0 + spec_kw_chars(" ") + spec_dec_chars(e.1) + spec_kw_chars("\n")
}

/// The level-select rows from `i` to the end, emitted in reverse: the last
/// stored entry is written first, undoing the reversal the parser applies.
pub open spec fn spec_order_emitted(v: Seq<(Seq<char>, u32)>, i: int) -> Seq<char>
    decreases v.len() - i,
{
    if i < 0 || i >= v.len() {
        Seq::empty()
    } else {
        spec_order_emitted(v, i + 1) + spec_order_line(v[i])
    }
}

/// The text of one pet row (the `as_string` line).
pub open spec fn spec_pet_line(p: PetDefView) -> Seq<char> {
    seq!['"'] + p.name + seq!['"', ' '] + spec_dec_chars(p.animbase.0 as u32) + seq![' ']
        + spec_dec_chars(p.animbase.1 as u32) + seq![' '] + spec_dec_chars(p.iconbase.0 as u32)
        + seq![' '] + spec_dec_chars(p.iconbase.1 as u32) + seq![' '] + spec_i32_chars(p.idle_snd)
        + seq![' '] + (match p.ai {
        PetAIView::Fly { num_fly_frames } => seq!['f', ' '] + spec_dec_chars(
            num_fly_frames as u32,
        ),
        PetAIView::Walk { num_idle_frames, num_walk_frames, num_fall_frames } => seq!['w', ' ']
            + spec_dec_chars(num_idle_frames as u32) + seq![' '] + spec_dec_chars(
            num_walk_frames as u32,
        ) + seq![' '] + spec_dec_chars(num_fall_frames as u32),
        PetAIView::Bounce { num_idle_frames, num_bounce_frames, jump_height, bounce_idly } => seq![
            'b',
            ' ',
        ] + spec_dec_chars(num_idle_frames as u32) + seq![' '] + spec_dec_chars(
            num_bounce_frames as u32,
        ) + seq![' '] + seq![
            if bounce_idly {
                '1'
            } else {
                '0'
            },
        ] + seq![' '] + jump_height,
    })
}

/// The text of the first `n` pet rows.
pub open spec fn spec_pet_lines(pets: Seq<PetDefView>, n: int) -> Seq<char>
    decreases n,
{
    if n <= 0 {
        Seq::empty()
    } else {
        spec_pet_lines(pets, n - 1) + spec_pet_line(pets[n - 1]) + spec_kw_chars("\n")
    }
}

/// The text a section saves to.
pub open spec fn spec_mode_text(m: ModeView) -> Seq<char> {
    match m {
        ModeView::MusicIds(v) => spec_kw_chars("MODE MUSIC\n") + spec_resource_lines(
            v,
            v.len() as int,
        ),
        ModeView::SoundIds(v) => spec_kw_chars("MODE SOUNDS\n") + spec_resource_lines(
            v,
            v.len() as int,
        ),
        ModeView::MusicVolumeOverride => spec_kw_chars("MODE MUSIC_VOLUME_OVERRIDE\n"),
        ModeView::LevelSelectOrder(v) => spec_kw_chars("MODE LEVELSELECT_ORDER\n")
            + spec_order_emitted(v, 0),
        ModeView::MaxPowerDef(d) => spec_kw_chars("MODE MAXPOWER") + spec_dec_chars(d.id as u32)
            + spec_kw_chars("\nspd ") + d.speed + spec_kw_chars("\njmp ") + d.jump + spec_kw_chars(
            "\ngrav ",
        ) + d.gravity + spec_kw_chars("\nhpcost ") + d.hpcost + spec_kw_chars("\nstrength ")
            + d.strength + spec_kw_chars("\nability ") + spec_dec_chars(spec_ability_id(d.ability))
            + spec_kw_chars("\n"),
        ModeView::LuaAutorunCode(code) => spec_kw_chars("MODE LUA_AUTORUN\n") + code
            + spec_kw_chars("__ENDLUA__\n"),
        ModeView::PetDefs(pets) => spec_kw_chars("MODE PETDEFS\n") + spec_pet_lines(
            pets,
            pets.len() as int,
        ) + spec_kw_chars("ENDPETS\n"),
    }
}

/// The text the first `n` sections save to.
pub open spec fn spec_cnma_text(modes: Seq<ModeView>, n: int) -> Seq<char>
    decreases n,
{
    if n <= 0 {
        Seq::empty()
    } else {
        spec_cnma_text(modes, n - 1) + spec_mode_text(modes[n - 1])
    }
}

} // verus!
