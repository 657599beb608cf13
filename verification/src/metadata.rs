use vstd::prelude::*;

use crate::ChdError;

verus! {

/// Metadata tag for legacy-format CD track records: the four ASCII bytes "CHTR".
pub const CDROM_TRACK_METADATA_TAG: u32 = 0x43485452;

/// Metadata tag for current-format CD track records: the four ASCII bytes "CHT2".
pub const CDROM_TRACK_METADATA2_TAG: u32 = 0x43485432;

/// Mathematical model of one parsed CD track record.
///
/// The four optional fields are all present (current grammar) or all absent
/// (legacy grammar); they are never mixed.
pub ghost struct TrackRec {
    pub track_no: u8,
    pub track_type: Seq<char>,
    pub sub_type: Seq<char>,
    pub frames: u32,
    pub pregap: Option<u32>,
    pub pgtype: Option<Seq<char>>,
    pub pgsub: Option<Seq<char>>,
    pub postgap: Option<u32>,
}

/// One CD track's layout description, recovered from a container's metadata.
#[derive(Debug)]
pub struct CdTrackInfo {
    pub track_no: u8,
    pub track_type: String,
    pub sub_type: String,
    pub frames: u32,
    pub pregap: Option<u32>,
    pub pgtype: Option<String>,
    pub pgsub: Option<String>,
    pub postgap: Option<u32>,
}

impl View for CdTrackInfo {
    type V = TrackRec;

    open spec fn view(&self) -> TrackRec {
        TrackRec {
            track_no: self.track_no,
            track_type: self.track_type@,
            sub_type: self.sub_type@,
            frames: self.frames,
            pregap: self.pregap,
            pgtype: match self.pgtype {
                Option::Some(s) => Option::Some(s@),
                Option::None => Option::None,
            },
            pgsub: match self.pgsub {
                Option::Some(s) => Option::Some(s@),
                Option::None => Option::None,
            },
            postgap: self.postgap,
        }
    }
}

/// The characters a byte sequence denotes, one character per byte.
pub open spec fn chars_of(s: Seq<u8>) -> Seq<char> {
    s.map_values(|b: u8| b as char)
}

/// Records may carry trailing spaces or NUL bytes beyond the final field;
/// the grammar ignores them.
pub open spec fn spec_strip_trailing(s: Seq<u8>) -> Seq<u8>
    decreases s.len(),
{
    if s.len() > 0 && (s.last() == 32u8 || s.last() == 0u8) {
        spec_strip_trailing(s.drop_last())
    } else {
        s
    }
}

/// Position of the first space at or after `i`, or the end of `s`.
pub open spec fn spec_token_end(s: Seq<u8>, i: int) -> int
    decreases s.len() - i,
{
    if i < 0 || i >= s.len() {
        s.len() as int
    } else if s[i] == 32u8 {
        i
    } else {
        spec_token_end(s, i + 1)
    }
}

pub open spec fn spec_is_digit(b: u8) -> bool {
    48 <= b && b <= 57
}

pub open spec fn spec_all_digits(s: Seq<u8>) -> bool {
    forall|k: int| 0 <= k < s.len() ==> spec_is_digit(#[trigger] s[k])
}

/// Value of a digit string read in base ten.
pub open spec fn spec_digits_val(s: Seq<u8>) -> int
    decreases s.len(),
{
    if s.len() == 0 {
        0
    } else {
        spec_digits_val(s.drop_last()) * 10 + (s.last() - 48)
    }
}

/// Strict decimal parse: nonempty, digits only, value within `u32`.
pub open spec fn spec_parse_u32(s: Seq<u8>) -> Option<u32> {
    if s.len() > 0 && spec_all_digits(s) && spec_digits_val(s) <= u32::MAX {
        Option::Some(spec_digits_val(s) as u32)
    } else {
        Option::None
    }
}

/// Strict decimal parse: nonempty, digits only, value within `u8`.
pub open spec fn spec_parse_u8(s: Seq<u8>) -> Option<u8> {
    if s.len() > 0 && spec_all_digits(s) && spec_digits_val(s) <= u8::MAX {
        Option::Some(spec_digits_val(s) as u8)
    } else {
        Option::None
    }
}

pub open spec fn key_track() -> Seq<u8> {
    seq![84u8, 82u8, 65u8, 67u8, 75u8]
}

pub open spec fn key_type() -> Seq<u8> {
    seq![84u8, 89u8, 80u8, 69u8]
}

pub open spec fn key_subtype() -> Seq<u8> {
    seq![83u8, 85u8, 66u8, 84u8, 89u8, 80u8, 69u8]
}

pub open spec fn key_frames() -> Seq<u8> {
    seq![70u8, 82u8, 65u8, 77u8, 69u8, 83u8]
}

pub open spec fn key_pregap() -> Seq<u8> {
    seq![80u8, 82u8, 69u8, 71u8, 65u8, 80u8]
}

pub open spec fn key_pgtype() -> Seq<u8> {
    seq![80u8, 71u8, 84u8, 89u8, 80u8, 69u8]
}

pub open spec fn key_pgsub() -> Seq<u8> {
    seq![80u8, 71u8, 83u8, 85u8, 66u8]
}

pub open spec fn key_postgap() -> Seq<u8> {
    seq![80u8, 79u8, 83u8, 84u8, 71u8, 65u8, 80u8]
}

/// One `KEY:value` field whose token starts at `i`: the token running to the
/// next space (or the end) must be the key, a colon, and a nonempty value.
/// Yields the value bytes and the token's end position.
pub open spec fn spec_field(s: Seq<u8>, i: int, key: Seq<u8>) -> Option<(Seq<u8>, int)> {
    let j = spec_token_end(s, i);
    let tok = s.subrange(i, j);
    if tok.len() >= key.len() + 2 && tok.subrange(0, key.len() as int) == key && tok[key.len() as int]
        == 58u8 {
        Option::Some((tok.subrange(key.len() as int + 1, tok.len() as int), j))
    } else {
        Option::None
    }
}

/// Four consecutive fields separated by single spaces, the first starting at
/// `i`. Yields the four values and the position just past the fourth token.
pub open spec fn spec_fields4(
    s: Seq<u8>,
    i: int,
    k0: Seq<u8>,
    k1: Seq<u8>,
    k2: Seq<u8>,
    k3: Seq<u8>,
) -> Option<(Seq<u8>, Seq<u8>, Seq<u8>, Seq<u8>, int)> {
    match spec_field(s, i, k0) {
        Option::None => Option::None,
        Option::Some((v0, j0)) => if j0 < s.len() {
            match spec_field(s, j0 + 1, k1) {
                Option::None => Option::None,
                Option::Some((v1, j1)) => if j1 < s.len() {
                    match spec_field(s, j1 + 1, k2) {
                        Option::None => Option::None,
                        Option::Some((v2, j2)) => if j2 < s.len() {
                            match spec_field(s, j2 + 1, k3) {
                                Option::None => Option::None,
                                Option::Some((v3, j3)) => Option::Some((v0, v1, v2, v3, j3)),
                            }
                        } else {
                            Option::None
                        },
                    }
                } else {
                    Option::None
                },
            }
        } else {
            Option::None
        },
    }
}

/// The legacy grammar `TRACK:<u8> TYPE:<token> SUBTYPE:<token> FRAMES:<u32>`,
/// applied to a record with trailing spaces and NULs ignored. All four
/// optional fields of the result are absent.
pub open spec fn spec_parse_old_rec(s0: Seq<u8>) -> Option<TrackRec> {
    let s = spec_strip_trailing(s0);
    match spec_fields4(s, 0, key_track(), key_type(), key_subtype(), key_frames()) {
        Option::None => Option::None,
        Option::Some((v0, v1, v2, v3, j)) => if j == s.len() {
            match (spec_parse_u8(v0), spec_parse_u32(v3)) {
                (Option::Some(tn), Option::Some(fr)) => Option::Some(
                    TrackRec {
                        track_no: tn,
                        track_type: chars_of(v1),
                        sub_type: chars_of(v2),
                        frames: fr,
                        pregap: Option::None,
                        pgtype: Option::None,
                        pgsub: Option::None,
                        postgap: Option::None,
                    },
                ),
                _ => Option::None,
            }
        } else {
            Option::None
        },
    }
}

/// The current grammar `TRACK:<u8> TYPE:<token> SUBTYPE:<token> FRAMES:<u32>
/// PREGAP:<u32> PGTYPE:<token> PGSUB:<token> POSTGAP:<u32>`, applied to a
/// record with trailing spaces and NULs ignored. All four optional fields of
/// the result are present.
pub open spec fn spec_parse_new_rec(s0: Seq<u8>) -> Option<TrackRec> {
    let s = spec_strip_trailing(s0);
    match spec_fields4(s, 0, key_track(), key_type(), key_subtype(), key_frames()) {
        Option::None => Option::None,
        Option::Some((v0, v1, v2, v3, j)) => if j < s.len() {
            match spec_fields4(s, j + 1, key_pregap(), key_pgtype(), key_pgsub(), key_postgap()) {
                Option::None => Option::None,
                Option::Some((v4, v5, v6, v7, j2)) => if j2 == s.len() {
                    match (spec_parse_u8(v0), spec_parse_u32(v3), spec_parse_u32(v4), spec_parse_u32(v7)) {
                        (
                            Option::Some(tn),
                            Option::Some(fr),
                            Option::Some(pg),
                            Option::Some(pog),
                        ) => Option::Some(
                            TrackRec {
                                track_no: tn,
                                track_type: chars_of(v1),
                                sub_type: chars_of(v2),
                                frames: fr,
                                pregap: Option::Some(pg),
                                pgtype: Option::Some(chars_of(v5)),
                                pgsub: Option::Some(chars_of(v6)),
                                postgap: Option::Some(pog),
                            },
                        ),
                        _ => Option::None,
                    }
                } else {
                    Option::None
                },
            }
        } else {
            Option::None
        },
    }
}

proof fn lemma_digits_val_nonneg(s: Seq<u8>)
    requires
        spec_all_digits(s),
    ensures
        spec_digits_val(s) >= 0,
    decreases s.len(),
{
    if s.len() > 0 {
        lemma_digits_val_nonneg(s.drop_last());
    }
}

/// Reading further digits never decreases the value of a digit string.
proof fn lemma_digits_val_monotone(s: Seq<u8>, i: int)
    requires
        0 <= i <= s.len(),
        spec_all_digits(s),
    ensures
        spec_digits_val(s) >= spec_digits_val(s.take(i)),
    decreases s.len() - i,
{
    if i < s.len() {
        assert(spec_all_digits(s.take(i))) by {
            assert(forall|k: int| 0 <= k < i ==> s.take(i)[k] == s[k]);
        }
        lemma_digits_val_nonneg(s.take(i));
        assert(s.take(i + 1).drop_last() =~= s.take(i));
        assert(s.take(i + 1).last() == s[i]);
        lemma_digits_val_monotone(s, i + 1);
    } else {
        assert(s.take(i) =~= s);
    }
}

/// If no space occurs in `[i, j)` and `j` is the end or a space, then `j` is
/// the token end.
proof fn lemma_token_end_at(s: Seq<u8>, i: int, j: int)
    requires
        0 <= i <= j <= s.len(),
        forall|k: int| i <= k < j ==> s[k] != 32u8,
        j == s.len() || s[j] == 32u8,
    ensures
        spec_token_end(s, i) == j,
    decreases j - i,
{
    if i < j {
        lemma_token_end_at(s, i + 1, j);
    }
}

fn token_end(s: &[u8], i: usize) -> (j: usize)
    requires
        i <= s@.len(),
    ensures
        i <= j <= s@.len(),
        j == spec_token_end(s@, i as int),
{
    let mut j = i;
    while j < s.len() && s[j] != 32u8
        invariant
            i <= j <= s@.len(),
            forall|k: int| i <= k < j ==> s@[k] != 32u8,
        decreases s@.len() - j,
    {
        j = j + 1;
    }
    proof {
        lemma_token_end_at(s@, i as int, j as int);
    }
    j
}

/// Length of `s` once trailing spaces and NUL bytes are dropped.
fn strip_len(s: &[u8]) -> (n: usize)
    ensures
        n <= s@.len(),
        spec_strip_trailing(s@) == s@.take(n as int),
{
    let mut n = s.len();
    proof {
        assert(s@.take(s@.len() as int) =~= s@);
    }
    while n > 0 && (s[n - 1] == 32u8 || s[n - 1] == 0u8)
        invariant
            n <= s@.len(),
            spec_strip_trailing(s@) == spec_strip_trailing(s@.take(n as int)),
        decreases n,
    {
        proof {
            assert(s@.take(n as int).drop_last() =~= s@.take(n as int - 1));
            assert(s@.take(n as int).last() == s@[n as int - 1]);
        }
        n = n - 1;
    }
    proof {
        if n > 0 {
            assert(s@.take(n as int).last() == s@[n as int - 1]);
        }
    }
    n
}

/// Strict decimal parse of a whole byte string into a `u32`.
fn parse_u32_digits(s: &[u8]) -> (r: Option<u32>)
    ensures
        r == spec_parse_u32(s@),
{
    if s.len() == 0 {
        return Option::None;
    }
    let mut acc: u64 = 0;
    let mut i: usize = 0;
    while i < s.len()
        invariant
            i <= s@.len(),
            spec_all_digits(s@.take(i as int)),
            acc == spec_digits_val(s@.take(i as int)),
            acc <= u32::MAX,
        decreases s@.len() - i,
    {
        let b = s[i];
        if b < 48 || b > 57 {
            assert(!spec_is_digit(s@[i as int]));
            return Option::None;
        }
        let d: u64 = (b - 48) as u64;
        acc = acc * 10 + d;
        proof {
            assert(s@.take(i as int + 1).drop_last() =~= s@.take(i as int));
            assert(s@.take(i as int + 1).last() == s@[i as int]);
            assert(forall|k: int| 0 <= k < i + 1 ==> s@.take(i as int + 1)[k] == s@.take(
                i as int,
            ).push(s@[i as int])[k]);
        }
        if acc > 0xFFFF_FFFF {
            proof {
                if spec_all_digits(s@) {
                    lemma_digits_val_monotone(s@, i as int + 1);
                }
            }
            return Option::None;
        }
        i = i + 1;
    }
    proof {
        assert(s@.take(s@.len() as int) =~= s@);
    }
    Option::Some(acc as u32)
}

/// Relies on std's `String::push`: appends exactly one character to the string.
#[verifier::external_body]
fn push_char(s: &mut String, c: char)
    ensures
        final(s)@ == old(s)@.push(c),
{
    s.push(c);
}

/// Decode token bytes into an owned string, one character per byte.
fn bytes_to_string(v: &[u8]) -> (s: String)
    ensures
        s@ == chars_of(v@),
{
    let mut s = String::new();
    let mut i: usize = 0;
    while i < v.len()
        invariant
            i <= v@.len(),
            s@ == chars_of(v@.take(i as int)),
        decreases v@.len() - i,
    {
        push_char(&mut s, v[i] as char);
        proof {
            assert(chars_of(v@.take(i as int + 1)) =~= chars_of(v@.take(i as int)).push(
                v@[i as int] as char,
            ));
        }
        i = i + 1;
    }
    proof {
        assert(v@.take(v@.len() as int) =~= v@);
    }
    s
}

/// Scan one `KEY:value` field whose token starts at `i`; on success hand back
/// the value bytes and the token's end position.
fn take_field(s: &[u8], i: usize, key: &[u8]) -> (r: Option<(Vec<u8>, usize)>)
    requires
        i <= s@.len(),
        key@.len() <= 16,
    ensures
        match r {
            Option::Some(p) => spec_field(s@, i as int, key@) == Option::Some(
                (p.0@, p.1 as int),
            ) && i <= p.1 <= s@.len(),
            Option::None => spec_field(s@, i as int, key@) is None,
        },
{
    let j = token_end(s, i);
    let ghost tok = s@.subrange(i as int, j as int);
    if j - i < key.len() + 2 {
        return Option::None;
    }
    let mut t: usize = 0;
    while t < key.len()
        invariant
            t <= key@.len(),
            i + key@.len() + 2 <= j <= s@.len(),
            key@.len() <= 16,
            j == spec_token_end(s@, i as int),
            tok == s@.subrange(i as int, j as int),
            forall|k: int| 0 <= k < t ==> tok[k] == key@[k],
        decreases key@.len() - t,
    {
        if s[i + t] != key[t] {
            proof {
                assert(tok[t as int] == s@[i as int + t as int]);
                assert(tok.subrange(0, key@.len() as int)[t as int] != key@[t as int]);
            }
            return Option::None;
        }
        t = t + 1;
    }
    if s[i + key.len()] != 58u8 {
        proof {
            assert(tok[key@.len() as int] == s@[i as int + key@.len() as int]);
        }
        return Option::None;
    }
    proof {
        assert(tok.subrange(0, key@.len() as int) =~= key@);
        assert(tok[key@.len() as int] == s@[i as int + key@.len() as int]);
    }
    let start = i + key.len() + 1;
    let v: Vec<u8> = slice_range_to_vec(s, start, j);
    proof {
        assert(v@ =~= tok.subrange(key@.len() as int + 1, tok.len() as int));
    }
    Option::Some((v, j))
}

/// Copy the bytes of `s[start..end]` into an owned vector.
fn slice_range_to_vec(s: &[u8], start: usize, end: usize) -> (v: Vec<u8>)
    requires
        start <= end <= s@.len(),
    ensures
        v@ == s@.subrange(start as int, end as int),
{
    let mut v: Vec<u8> = Vec::new();
    let mut i = start;
    while i < end
        invariant
            start <= i <= end <= s@.len(),
            v@ == s@.subrange(start as int, i as int),
        decreases end - i,
    {
        v.push(s[i]);
        proof {
            assert(s@.subrange(start as int, i as int + 1) =~= s@.subrange(
                start as int,
                i as int,
            ).push(s@[i as int]));
        }
        i = i + 1;
    }
    v
}

/// Scan four consecutive space-separated fields, the first starting at `i`.
fn take_fields4(s: &[u8], i: usize, k0: &[u8], k1: &[u8], k2: &[u8], k3: &[u8]) -> (r: Option<
    (Vec<u8>, Vec<u8>, Vec<u8>, Vec<u8>, usize),
>)
    requires
        i <= s@.len(),
        k0@.len() <= 16,
        k1@.len() <= 16,
        k2@.len() <= 16,
        k3@.len() <= 16,
    ensures
        match r {
            Option::Some(p) => spec_fields4(s@, i as int, k0@, k1@, k2@, k3@) == Option::Some(
                (p.0@, p.1@, p.2@, p.3@, p.4 as int),
            ) && i <= p.4 <= s@.len(),
            Option::None => spec_fields4(s@, i as int, k0@, k1@, k2@, k3@) is None,
        },
{
    let (v0, j0) = match take_field(s, i, k0) {
        Option::Some(p) => p,
        Option::None => {
            return Option::None;
        },
    };
    if j0 >= s.len() {
        return Option::None;
    }
    let (v1, j1) = match take_field(s, j0 + 1, k1) {
        Option::Some(p) => p,
        Option::None => {
            return Option::None;
        },
    };
    if j1 >= s.len() {
        return Option::None;
    }
    let (v2, j2) = match take_field(s, j1 + 1, k2) {
        Option::Some(p) => p,
        Option::None => {
            return Option::None;
        },
    };
    if j2 >= s.len() {
        return Option::None;
    }
    let (v3, j3) = match take_field(s, j2 + 1, k3) {
        Option::Some(p) => p,
        Option::None => {
            return Option::None;
        },
    };
    Option::Some((v0, v1, v2, v3, j3))
}

fn key_track_vec() -> (v: Vec<u8>)
    ensures
        v@ == key_track(),
{
    let v: Vec<u8> = vec![84u8, 82u8, 65u8, 67u8, 75u8];
    proof {
        assert(v@ =~= key_track());
    }
    v
}

fn key_type_vec() -> (v: Vec<u8>)
    ensures
        v@ == key_type(),
{
    let v: Vec<u8> = vec![84u8, 89u8, 80u8, 69u8];
    proof {
        assert(v@ =~= key_type());
    }
    v
}

fn key_subtype_vec() -> (v: Vec<u8>)
    ensures
        v@ == key_subtype(),
{
    let v: Vec<u8> = vec![83u8, 85u8, 66u8, 84u8, 89u8, 80u8, 69u8];
    proof {
        assert(v@ =~= key_subtype());
    }
    v
}

fn key_frames_vec() -> (v: Vec<u8>)
    ensures
        v@ == key_frames(),
{
    let v: Vec<u8> = vec![70u8, 82u8, 65u8, 77u8, 69u8, 83u8];
    proof {
        assert(v@ =~= key_frames());
    }
    v
}

fn key_pregap_vec() -> (v: Vec<u8>)
    ensures
        v@ == key_pregap(),
{
    let v: Vec<u8> = vec![80u8, 82u8, 69u8, 71u8, 65u8, 80u8];
    proof {
        assert(v@ =~= key_pregap());
    }
    v
}

fn key_pgtype_vec() -> (v: Vec<u8>)
    ensures
        v@ == key_pgtype(),
{
    let v: Vec<u8> = vec![80u8, 71u8, 84u8, 89u8, 80u8, 69u8];
    proof {
        assert(v@ =~= key_pgtype());
    }
    v
}

fn key_pgsub_vec() -> (v: Vec<u8>)
    ensures
        v@ == key_pgsub(),
{
    let v: Vec<u8> = vec![80u8, 71u8, 83u8, 85u8, 66u8];
    proof {
        assert(v@ =~= key_pgsub());
    }
    v
}

fn key_postgap_vec() -> (v: Vec<u8>)
    ensures
        v@ == key_postgap(),
{
    let v: Vec<u8> = vec![80u8, 79u8, 83u8, 84u8, 71u8, 65u8, 80u8];
    proof {
        assert(v@ =~= key_postgap());
    }
    v
}

/// Strict decimal parse of a whole byte string into a `u8`.
fn parse_u8_digits(s: &[u8]) -> (r: Option<u8>)
    ensures
        r == spec_parse_u8(s@),
{
    match parse_u32_digits(s) {
        Option::Some(x) => {
            proof {
                lemma_digits_val_nonneg(s@);
            }
            if x <= 255 {
                Option::Some(x as u8)
            } else {
                Option::None
            }
        },
        Option::None => {
            proof {
                if s@.len() > 0 && spec_all_digits(s@) {
                    assert(spec_digits_val(s@) > u32::MAX);
                }
            }
            Option::None
        },
    }
}

impl CdTrackInfo {
    /// Parse one legacy-format record
    /// (`TRACK:<u8> TYPE:<token> SUBTYPE:<token> FRAMES:<u32>`).
    ///
    /// Succeeds exactly when the record matches the legacy grammar; the
    /// resulting track has all four optional fields absent.
    pub fn from_old_metadata(bytes: &[u8]) -> (r: Result<CdTrackInfo, ChdError>)
        ensures
            match r {
                Result::Ok(info) => spec_parse_old_rec(bytes@) == Option::Some(info@),
                Result::Err(e) => spec_parse_old_rec(bytes@) is None && e
                    == ChdError::MetadataTextParseError,
            },
    {
        let n = strip_len(bytes);
        let t: &[u8] = &bytes[0..n];
        proof {
            assert(t@ =~= spec_strip_trailing(bytes@));
        }
        let kt = key_track_vec();
        let ky = key_type_vec();
        let ks = key_subtype_vec();
        let kf = key_frames_vec();
        let (v0, v1, v2, v3, j) = match take_fields4(
            t,
            0,
            kt.as_slice(),
            ky.as_slice(),
            ks.as_slice(),
            kf.as_slice(),
        ) {
            Option::Some(p) => p,
            Option::None => {
                return Result::Err(ChdError::MetadataTextParseError);
            },
        };
        if j != t.len() {
            return Result::Err(ChdError::MetadataTextParseError);
        }
        let track_no = match parse_u8_digits(v0.as_slice()) {
            Option::Some(x) => x,
            Option::None => {
                return Result::Err(ChdError::MetadataTextParseError);
            },
        };
        let frames = match parse_u32_digits(v3.as_slice()) {
            Option::Some(x) => x,
            Option::None => {
                return Result::Err(ChdError::MetadataTextParseError);
            },
        };
        let info = CdTrackInfo {
            track_no,
            track_type: bytes_to_string(v1.as_slice()),
            sub_type: bytes_to_string(v2.as_slice()),
            frames,
            pregap: Option::None,
            pgtype: Option::None,
            pgsub: Option::None,
            postgap: Option::None,
        };
        Result::Ok(info)
    }

    /// Parse one current-format record
    /// (`TRACK:<u8> TYPE:<token> SUBTYPE:<token> FRAMES:<u32> PREGAP:<u32>
    /// PGTYPE:<token> PGSUB:<token> POSTGAP:<u32>`).
    ///
    /// Succeeds exactly when the record matches the current grammar; the
    /// resulting track has all four optional fields present.
    pub fn from_metadata(bytes: &[u8]) -> (r: Result<CdTrackInfo, ChdError>)
        ensures
            match r {
                Result::Ok(info) => spec_parse_new_rec(bytes@) == Option::Some(info@),
                Result::Err(e) => spec_parse_new_rec(bytes@) is None && e
                    == ChdError::MetadataTextParseError,
            },
    {
        let n = strip_len(bytes);
        let t: &[u8] = &bytes[0..n];
        proof {
            assert(t@ =~= spec_strip_trailing(bytes@));
        }
        let kt = key_track_vec();
        let ky = key_type_vec();
        let ks = key_subtype_vec();
        let kf = key_frames_vec();
        let (v0, v1, v2, v3, j) = match take_fields4(
            t,
            0,
            kt.as_slice(),
            ky.as_slice(),
            ks.as_slice(),
            kf.as_slice(),
        ) {
            Option::Some(p) => p,
            Option::None => {
                return Result::Err(ChdError::MetadataTextParseError);
            },
        };
        if j >= t.len() {
            return Result::Err(ChdError::MetadataTextParseError);
        }
        let kp = key_pregap_vec();
        let kg = key_pgtype_vec();
        let kb = key_pgsub_vec();
        let ko = key_postgap_vec();
        let (v4, v5, v6, v7, j2) = match take_fields4(
            t,
            j + 1,
            kp.as_slice(),
            kg.as_slice(),
            kb.as_slice(),
            ko.as_slice(),
        ) {
            Option::Some(p) => p,
            Option::None => {
                return Result::Err(ChdError::MetadataTextParseError);
            },
        };
        if j2 != t.len() {
            return Result::Err(ChdError::MetadataTextParseError);
        }
        let track_no = match parse_u8_digits(v0.as_slice()) {
            Option::Some(x) => x,
            Option::None => {
                return Result::Err(ChdError::MetadataTextParseError);
            },
        };
        let frames = match parse_u32_digits(v3.as_slice()) {
            Option::Some(x) => x,
            Option::None => {
                return Result::Err(ChdError::MetadataTextParseError);
            },
        };
        let pregap = match parse_u32_digits(v4.as_slice()) {
            Option::Some(x) => x,
            Option::None => {
                return Result::Err(ChdError::MetadataTextParseError);
            },
        };
        let postgap = match parse_u32_digits(v7.as_slice()) {
            Option::Some(x) => x,
            Option::None => {
                return Result::Err(ChdError::MetadataTextParseError);
            },
        };
        let info = CdTrackInfo {
            track_no,
            track_type: bytes_to_string(v1.as_slice()),
            sub_type: bytes_to_string(v2.as_slice()),
            frames,
            pregap: Option::Some(pregap),
            pgtype: Option::Some(bytes_to_string(v5.as_slice())),
            pgsub: Option::Some(bytes_to_string(v6.as_slice())),
            postgap: Option::Some(postgap),
        };
        Result::Ok(info)
    }
}

/// Every track parsed by the legacy grammar has all four optional fields
/// absent: the legacy grammar never yields a partially filled record.
pub proof fn lemma_old_record_optional_fields_absent(s: Seq<u8>)
    ensures
        match spec_parse_old_rec(s) {
            Option::Some(t) => t.pregap is None && t.pgtype is None && t.pgsub is None
                && t.postgap is None,
            Option::None => true,
        },
{
}

/// No record is accepted by both grammars: a legacy record ends at its
/// fourth field, exactly where a current-format record must continue.
pub proof fn lemma_grammars_disjoint(s: Seq<u8>)
    ensures
        !(spec_parse_old_rec(s) is Some && spec_parse_new_rec(s) is Some),
{
}

/// Every track parsed by the current grammar has all four optional fields
/// present: the current grammar never yields a partially filled record.
pub proof fn lemma_new_record_optional_fields_present(s: Seq<u8>)
    ensures
        match spec_parse_new_rec(s) {
            Option::Some(t) => t.pregap is Some && t.pgtype is Some && t.pgsub is Some
                && t.postgap is Some,
            Option::None => true,
        },
{
}

} // verus!
