use vstd::bytes::*;
use vstd::prelude::*;
use vstd::string::*;
use crate::adapters::AdapterMetadata;
use vstd::utf8::*;

verus! {

/// Little-endian bytes of a `u64`.
pub open spec fn le64(x: u64) -> Seq<u8> {
    spec_u64_to_le_bytes(x)
}

/// Little-endian bytes of an `i32`, as its two's-complement `u32`.
pub open spec fn le32(x: i32) -> Seq<u8> {
    spec_u32_to_le_bytes(#[verifier::truncate] (x as u32))
}

/// A string as bincode writes it: its UTF-8 length as a `u64`, then the bytes.
pub open spec fn enc_str(s: Seq<char>) -> Seq<u8> {
    le64(encode_utf8(s).len() as u64) + encode_utf8(s)
}

/// The `(name, version)` pairs of a roster, one after the other.
pub open spec fn enc_pairs(xs: Seq<(Seq<char>, i32)>) -> Seq<u8>
    decreases xs.len(),
{
    if xs.len() == 0 {
        Seq::empty()
    } else {
        enc_str(xs[0].0) + le32(xs[0].1) + enc_pairs(xs.drop_first())
    }
}

/// A modification time as seconds and nanoseconds since the epoch.
pub open spec fn enc_time(secs: u64, nanos: u32) -> Seq<u8> {
    le64(secs) + spec_u32_to_le_bytes(nanos)
}

/// Key of an adapter whose output depends only on itself:
/// `(name, version, path, mtime)`.
pub open spec fn plain_key_bytes(
    name: Seq<char>,
    version: i32,
    path: Seq<char>,
    secs: u64,
    nanos: u32,
) -> Seq<u8> {
    enc_str(name) + le32(version) + enc_str(path) + enc_time(secs, nanos)
}

/// Key of a recursive adapter: `(roster of (name, version), path, mtime)`.
pub open spec fn roster_key_bytes(
    roster: Seq<(Seq<char>, i32)>,
    path: Seq<char>,
    secs: u64,
    nanos: u32,
) -> Seq<u8> {
    le64(roster.len() as u64) + enc_pairs(roster) + enc_str(path) + enc_time(secs, nanos)
}

/// What `path_clean::clean` makes of a path: `.` dropped, `..` resolved
/// lexically, repeated separators merged.
pub uninterp spec fn clean_of(p: Seq<char>) -> Seq<char>;

/// Relies on `path_clean::clean`, which only rearranges the components of
/// the path it is given, so a UTF-8 path stays UTF-8 and the result depends
/// on the path alone.
#[verifier::external_body]
pub(crate) fn clean_path(p: &str) -> (r: String)
    ensures
        r@ == clean_of(p@),
{
    path_clean::clean(p).to_string_lossy().into_owned()
}

#[verifier::external_type_specification]
#[verifier::external_body]
pub struct ExBincodeErrorKind(bincode::ErrorKind);

/// Relies on `bincode::serialize` (fixed-width little-endian integers,
/// strings and sequences prefixed with their length as a `u64`) for the
/// tuple `(name, version, path, (secs, nanos))`. It cannot fail here: it
/// writes into a `Vec` with no size limit, and every sequence has a length.
#[verifier::external_body]
fn serialize_plain_key(
    name: &String,
    version: i32,
    path: &String,
    secs: u64,
    nanos: u32,
) -> (r: Result<Vec<u8>, Box<bincode::ErrorKind>>)
    ensures
        r is Ok,
        r matches Ok(b) ==> b@ == plain_key_bytes(name@, version, path@, secs, nanos),
{
    bincode::serialize(&(name, version, path, (secs, nanos)))
}

/// Names and versions as plain sequences.
pub open spec fn pairs_view(v: Seq<(String, i32)>) -> Seq<(Seq<char>, i32)> {
    v.map_values(|p: (String, i32)| (p.0@, p.1))
}

/// Relies on `bincode::serialize`, as above, for the tuple
/// `(roster, path, (secs, nanos))`, the roster being a sequence of
/// `(name, version)` pairs; it cannot fail here either.
#[verifier::external_body]
fn serialize_roster_key(
    roster: &Vec<(String, i32)>,
    path: &String,
    secs: u64,
    nanos: u32,
) -> (r: Result<Vec<u8>, Box<bincode::ErrorKind>>)
    ensures
        r is Ok,
        r matches Ok(b) ==> b@ == roster_key_bytes(pairs_view(roster@), path@, secs, nanos),
{
    bincode::serialize(&(roster, path, (secs, nanos)))
}


/// A string whose UTF-8 length a `u64` can hold, as every `String` can.
pub open spec fn str_fits(s: Seq<char>) -> bool {
    encode_utf8(s).len() <= u64::MAX
}

/// Every name of a roster, and the roster's length, fit a `u64`.
pub open spec fn roster_fits(xs: Seq<(Seq<char>, i32)>) -> bool {
    &&& xs.len() <= u64::MAX
    &&& forall|i: int| 0 <= i < xs.len() ==> str_fits(#[trigger] xs[i].0)
}

proof fn lemma_split<T>(a1: Seq<T>, r1: Seq<T>, a2: Seq<T>, r2: Seq<T>)
    requires
        a1.len() == a2.len(),
        a1 + r1 == a2 + r2,
    ensures
        a1 == a2,
        r1 == r2,
{
    assert(a1 =~= (a1 + r1).subrange(0, a1.len() as int));
    assert(a2 =~= (a2 + r2).subrange(0, a1.len() as int));
    assert(r1 =~= (a1 + r1).subrange(a1.len() as int, (a1 + r1).len() as int));
    assert(r2 =~= (a2 + r2).subrange(a1.len() as int, (a2 + r2).len() as int));
}

proof fn lemma_le64_injective(a: u64, b: u64)
    requires
        le64(a) == le64(b),
    ensures
        a == b,
{
    lemma_auto_spec_u64_to_from_le_bytes();
}

proof fn lemma_le32_injective(a: i32, b: i32)
    requires
        le32(a) == le32(b),
    ensures
        a == b,
{
    lemma_auto_spec_u32_to_from_le_bytes();
    let ua = #[verifier::truncate] (a as u32);
    let ub = #[verifier::truncate] (b as u32);
    assert(spec_u32_to_le_bytes(ua).len() == 4);
    assert(spec_u32_to_le_bytes(ub).len() == 4);
    assert(ua == ub ==> a == b) by (bit_vector)
        requires
            ua == #[verifier::truncate] (a as u32),
            ub == #[verifier::truncate] (b as u32),
    ;
}

/// A length-prefixed string followed by anything can be split back apart.
proof fn lemma_enc_str_prefix(s1: Seq<char>, r1: Seq<u8>, s2: Seq<char>, r2: Seq<u8>)
    requires
        str_fits(s1),
        str_fits(s2),
        enc_str(s1) + r1 == enc_str(s2) + r2,
    ensures
        s1 == s2,
        r1 == r2,
{
    lemma_auto_spec_u64_to_from_le_bytes();
    let u1 = encode_utf8(s1);
    let u2 = encode_utf8(s2);
    let h1 = le64(u1.len() as u64);
    let h2 = le64(u2.len() as u64);
    assert(h1 + (u1 + r1) =~= enc_str(s1) + r1);
    assert(h2 + (u2 + r2) =~= enc_str(s2) + r2);
    lemma_split(h1, u1 + r1, h2, u2 + r2);
    lemma_le64_injective(u1.len() as u64, u2.len() as u64);
    lemma_split(u1, r1, u2, r2);
    encode_utf8_decode_utf8(s1);
    encode_utf8_decode_utf8(s2);
}

/// A roster's pairs followed by anything can be split back apart, given
/// the number of pairs.
proof fn lemma_enc_pairs_prefix(
    xs: Seq<(Seq<char>, i32)>,
    r1: Seq<u8>,
    ys: Seq<(Seq<char>, i32)>,
    r2: Seq<u8>,
)
    requires
        roster_fits(xs),
        roster_fits(ys),
        xs.len() == ys.len(),
        enc_pairs(xs) + r1 == enc_pairs(ys) + r2,
    ensures
        xs == ys,
        r1 == r2,
    decreases xs.len(),
{
    if xs.len() > 0 {
        lemma_auto_spec_u32_to_from_le_bytes();
        let x0 = xs[0];
        let y0 = ys[0];
        let tx = le32(x0.1) + (enc_pairs(xs.drop_first()) + r1);
        let ty = le32(y0.1) + (enc_pairs(ys.drop_first()) + r2);
        assert(enc_str(x0.0) + tx =~= enc_pairs(xs) + r1);
        assert(enc_str(y0.0) + ty =~= enc_pairs(ys) + r2);
        assert(str_fits(xs[0].0));
        assert(str_fits(ys[0].0));
        lemma_enc_str_prefix(x0.0, tx, y0.0, ty);
        lemma_split(le32(x0.1), enc_pairs(xs.drop_first()) + r1, le32(y0.1), enc_pairs(ys.drop_first()) + r2);
        lemma_le32_injective(x0.1, y0.1);
        assert forall|i: int| 0 <= i < xs.drop_first().len() implies str_fits(#[trigger] xs.drop_first()[i].0) by {
            assert(str_fits(xs[i + 1].0));
        }
        assert forall|i: int| 0 <= i < ys.drop_first().len() implies str_fits(#[trigger] ys.drop_first()[i].0) by {
            assert(str_fits(ys[i + 1].0));
        }
        lemma_enc_pairs_prefix(xs.drop_first(), r1, ys.drop_first(), r2);
        assert(xs =~= seq![x0] + xs.drop_first());
        assert(ys =~= seq![y0] + ys.drop_first());
    } else {
        assert(enc_pairs(xs) + r1 =~= r1);
        assert(enc_pairs(ys) + r2 =~= r2);
    }
}

/// Two recursive keys of one file at one time are equal only for equal
/// rosters.
pub proof fn lemma_roster_key_injective(
    a: Seq<(Seq<char>, i32)>,
    b: Seq<(Seq<char>, i32)>,
    path: Seq<char>,
    secs: u64,
    nanos: u32,
)
    requires
        roster_fits(a),
        roster_fits(b),
        roster_key_bytes(a, path, secs, nanos) == roster_key_bytes(b, path, secs, nanos),
    ensures
        a == b,
{
    lemma_auto_spec_u64_to_from_le_bytes();
    let tail = enc_str(path) + enc_time(secs, nanos);
    assert(le64(a.len() as u64) + (enc_pairs(a) + tail) =~= roster_key_bytes(a, path, secs, nanos));
    assert(le64(b.len() as u64) + (enc_pairs(b) + tail) =~= roster_key_bytes(b, path, secs, nanos));
    lemma_split(le64(a.len() as u64), enc_pairs(a) + tail, le64(b.len() as u64), enc_pairs(b) + tail);
    lemma_le64_injective(a.len() as u64, b.len() as u64);
    lemma_enc_pairs_prefix(a, tail, b, tail);
}


/// The decimal digit `d`.
pub open spec fn digit(d: nat) -> char {
    seq!['0', '1', '2', '3', '4', '5', '6', '7', '8', '9'][d as int]
}

/// `n` in decimal, without leading zeros.
pub open spec fn dec_nat(n: nat) -> Seq<char>
    decreases n,
{
    if n < 10 {
        seq![digit(n)]
    } else {
        dec_nat(n / 10) + seq![digit(n % 10)]
    }
}

/// `v` in decimal, with a leading `-` when negative.
pub open spec fn dec_int(v: int) -> Seq<char> {
    if v < 0 {
        seq!['-'] + dec_nat((-v) as nat)
    } else {
        dec_nat(v as nat)
    }
}

/// The cache namespace of an adapter: `{name}.v{version}`.
pub open spec fn namespace_of(name: Seq<char>, version: i32) -> Seq<char> {
    name + seq!['.', 'v'] + dec_int(version as int)
}

fn digit_str(d: u32) -> (r: &'static str)
    requires
        d < 10,
    ensures
        r@ == seq![digit(d as nat)],
{
    proof {
        reveal_strlit("0");
        reveal_strlit("1");
        reveal_strlit("2");
        reveal_strlit("3");
        reveal_strlit("4");
        reveal_strlit("5");
        reveal_strlit("6");
        reveal_strlit("7");
        reveal_strlit("8");
        reveal_strlit("9");
    }
    match d {
        0 => "0",
        1 => "1",
        2 => "2",
        3 => "3",
        4 => "4",
        5 => "5",
        6 => "6",
        7 => "7",
        8 => "8",
        _ => "9",
    }
}

fn append_decimal(s: &mut String, n: u32)
    ensures
        final(s)@ == old(s)@ + dec_nat(n as nat),
    decreases n,
{
    if n >= 10 {
        append_decimal(s, n / 10);
    }
    s.append(digit_str(n % 10));
    assert(final(s)@ =~= old(s)@ + dec_nat(n as nat));
}

/// The cache namespace of an adapter, `{name}.v{version}`: a new version
/// gives a new namespace, so entries of an older one are never read.
pub fn db_name(meta: &AdapterMetadata) -> (r: String)
    ensures
        r@ == namespace_of(meta.name@, meta.version),
{
    let mut s = meta.name.clone();
    proof {
        reveal_strlit(".v");
        reveal_strlit("-");
    }
    s.append(".v");
    let v: i32 = meta.version;
    if v < 0 {
        s.append("-");
        let m: u32 = if v == i32::MIN { 2147483648u32 } else { (-v) as u32 };
        append_decimal(&mut s, m);
    } else {
        append_decimal(&mut s, v as u32);
    }
    assert(s@ =~= namespace_of(meta.name@, meta.version));
    s
}

proof fn lemma_dec_nat_len(n: nat)
    ensures
        dec_nat(n).len() >= 1,
        n >= 10 ==> dec_nat(n).len() >= 2,
    decreases n,
{
    if n >= 10 {
        lemma_dec_nat_len(n / 10);
    }
}

proof fn lemma_dec_nat_digits(n: nat)
    ensures
        forall|i: int| 0 <= i < dec_nat(n).len() ==> (#[trigger] dec_nat(n)[i]) != '-',
    decreases n,
{
    if n >= 10 {
        lemma_dec_nat_digits(n / 10);
        assert forall|i: int| 0 <= i < dec_nat(n).len() implies (#[trigger] dec_nat(n)[i]) != '-' by {
            if i < dec_nat(n / 10).len() {
                assert(dec_nat(n)[i] == dec_nat(n / 10)[i]);
            }
        }
    }
}

proof fn lemma_digit_injective(a: nat, b: nat)
    requires
        a < 10,
        b < 10,
        digit(a) == digit(b),
    ensures
        a == b,
{
    let ds = seq!['0', '1', '2', '3', '4', '5', '6', '7', '8', '9'];
    assert(ds[0] == '0' && ds[1] == '1' && ds[2] == '2' && ds[3] == '3' && ds[4] == '4');
    assert(ds[5] == '5' && ds[6] == '6' && ds[7] == '7' && ds[8] == '8' && ds[9] == '9');
}

proof fn lemma_dec_nat_injective(a: nat, b: nat)
    requires
        dec_nat(a) == dec_nat(b),
    ensures
        a == b,
    decreases a,
{
    lemma_dec_nat_len(a);
    lemma_dec_nat_len(b);
    if a >= 10 && b >= 10 {
        let pa = dec_nat(a / 10);
        let pb = dec_nat(b / 10);
        lemma_split(pa, seq![digit(a % 10)], pb, seq![digit(b % 10)]);
        lemma_dec_nat_injective(a / 10, b / 10);
        assert(digit(a % 10) == seq![digit(a % 10)][0]);
        assert(digit(b % 10) == seq![digit(b % 10)][0]);
        lemma_digit_injective(a % 10, b % 10);
    } else if a < 10 && b < 10 {
        assert(digit(a) == dec_nat(a)[0]);
        assert(digit(b) == dec_nat(b)[0]);
        lemma_digit_injective(a, b);
    }
}

proof fn lemma_dec_int_injective(a: int, b: int)
    requires
        dec_int(a) == dec_int(b),
    ensures
        a == b,
{
    lemma_dec_nat_digits((-a) as nat);
    lemma_dec_nat_digits((-b) as nat);
    lemma_dec_nat_digits(a as nat);
    lemma_dec_nat_digits(b as nat);
    lemma_dec_nat_len(a as nat);
    lemma_dec_nat_len(b as nat);
    if a < 0 && b < 0 {
        lemma_split(seq!['-'], dec_nat((-a) as nat), seq!['-'], dec_nat((-b) as nat));
        lemma_dec_nat_injective((-a) as nat, (-b) as nat);
    } else if a < 0 {
        assert(dec_int(a)[0] == '-');
    } else if b < 0 {
        assert(dec_int(b)[0] == '-');
    } else {
        lemma_dec_nat_injective(a as nat, b as nat);
    }
}

/// Bumping an adapter's version moves its entries to another namespace:
/// two versions of one adapter never share one.
pub proof fn lemma_version_isolates_namespace(name: Seq<char>, v1: i32, v2: i32)
    requires
        v1 != v2,
    ensures
        namespace_of(name, v1) != namespace_of(name, v2),
{
    if namespace_of(name, v1) == namespace_of(name, v2) {
        lemma_split(name + seq!['.', 'v'], dec_int(v1 as int), name + seq!['.', 'v'], dec_int(v2 as int));
        lemma_dec_int_injective(v1 as int, v2 as int);
    }
}


/// The `(name, version)` roster of the active adapters, in their order.
pub open spec fn roster_of(reg: Seq<AdapterMetadata>, active: Seq<usize>) -> Seq<(Seq<char>, i32)> {
    active.map_values(|i: usize| (reg[i as int].name@, reg[i as int].version))
}

/// The cache key of a file for an adapter: a recursive adapter keys on the
/// whole active roster, any other on its own name and version; both add the
/// cleaned path and the modification time.
pub open spec fn key_spec(
    reg: Seq<AdapterMetadata>,
    adapter: AdapterMetadata,
    active: Seq<usize>,
    path: Seq<char>,
    secs: u64,
    nanos: u32,
) -> Seq<u8> {
    if adapter.recurses {
        roster_key_bytes(roster_of(reg, active), clean_of(path), secs, nanos)
    } else {
        plain_key_bytes(adapter.name@, adapter.version, clean_of(path), secs, nanos)
    }
}

/// Why no cache key could be made.
pub enum KeyError {
    /// The file's modification time could not be read.
    MetadataUnavailable(String),
}

/// The cache key of the file at `filepath_hint`, last modified at `mtime`
/// (seconds and nanoseconds since the epoch; `None` where it could not be
/// read), for `adapter` among the `active` adapters of `reg`.
pub fn compute_cache_key(
    filepath_hint: &String,
    mtime: Option<(u64, u32)>,
    adapter: &AdapterMetadata,
    reg: &Vec<AdapterMetadata>,
    active: &Vec<usize>,
) -> (r: Result<Vec<u8>, KeyError>)
    requires
        forall|i: int| 0 <= i < active@.len() ==> (#[trigger] active@[i]) < reg@.len(),
    ensures
        mtime is None <==> r matches Err(KeyError::MetadataUnavailable(p)),
        r matches Err(KeyError::MetadataUnavailable(p)) ==> p@ == filepath_hint@,
        mtime is Some <==> r is Ok,
        r matches Ok(k) ==> (mtime matches Some(t) && k@ == key_spec(reg@, *adapter, active@, filepath_hint@, t.0, t.1)),
{
    let clean = clean_path(filepath_hint.as_str());
    let (secs, nanos) = match mtime {
        Some(t) => t,
        None => {
            return Err(KeyError::MetadataUnavailable(filepath_hint.clone()));
        },
    };
    let encoded = if adapter.recurses {
        let mut roster: Vec<(String, i32)> = Vec::new();
        let mut k: usize = 0;
        while k < active.len()
            invariant
                k <= active@.len(),
                forall|i: int| 0 <= i < active@.len() ==> (#[trigger] active@[i]) < reg@.len(),
                pairs_view(roster@) =~= roster_of(reg@, active@).take(k as int),
            decreases active@.len() - k,
        {
            let a = &reg[active[k]];
            let ghost before = roster@;
            assert(pairs_view(before).len() == before.len());
            assert(roster_of(reg@, active@).take(k as int).len() == k);
            assert(before.len() == k);
            let n = a.name.clone();
            assert(n@ == reg@[active@[k as int] as int].name@);
            let v = a.version;
            roster.push((n, v));
            assert(roster@ == before.push((n, v)));
            assert(pairs_view(roster@).len() == k + 1);
            assert(pairs_view(roster@)[k as int] == (n@, v));
            assert(roster_of(reg@, active@)[k as int] == (n@, v));
            assert forall|i: int| 0 <= i < k + 1 implies #[trigger] pairs_view(roster@)[i]
                == roster_of(reg@, active@).take(k + 1)[i] by {
                if i < k {
                    assert(pairs_view(before)[i] == roster_of(reg@, active@).take(k as int)[i]);
                }
            }
            k = k + 1;
            assert(pairs_view(roster@) =~= roster_of(reg@, active@).take(k as int));
        }
        assert(roster_of(reg@, active@).take(active@.len() as int) =~= roster_of(reg@, active@));
        serialize_roster_key(&roster, &clean, secs, nanos)
    } else {
        serialize_plain_key(&adapter.name, adapter.version, &clean, secs, nanos)
    };
    Ok(encoded.unwrap())
}


/// A non-recursive adapter's key does not depend on which other adapters
/// are active; a recursive adapter's key changes whenever the active roster
/// of names and versions does.
pub proof fn lemma_key_roster_dependence(
    reg: Seq<AdapterMetadata>,
    adapter: AdapterMetadata,
    active1: Seq<usize>,
    active2: Seq<usize>,
    path: Seq<char>,
    secs: u64,
    nanos: u32,
)
    requires
        roster_fits(roster_of(reg, active1)),
        roster_fits(roster_of(reg, active2)),
    ensures
        !adapter.recurses ==> key_spec(reg, adapter, active1, path, secs, nanos) == key_spec(
            reg,
            adapter,
            active2,
            path,
            secs,
            nanos,
        ),
        adapter.recurses && roster_of(reg, active1) != roster_of(reg, active2) ==> key_spec(
            reg,
            adapter,
            active1,
            path,
            secs,
            nanos,
        ) != key_spec(reg, adapter, active2, path, secs, nanos),
{
    if adapter.recurses && key_spec(reg, adapter, active1, path, secs, nanos) == key_spec(
        reg,
        adapter,
        active2,
        path,
        secs,
        nanos,
    ) {
        lemma_roster_key_injective(
            roster_of(reg, active1),
            roster_of(reg, active2),
            clean_of(path),
            secs,
            nanos,
        );
    }
}

proof fn lemma_time_injective(s1: u64, n1: u32, s2: u64, n2: u32)
    requires
        enc_time(s1, n1) == enc_time(s2, n2),
    ensures
        s1 == s2,
        n1 == n2,
{
    lemma_auto_spec_u64_to_from_le_bytes();
    lemma_auto_spec_u32_to_from_le_bytes();
    lemma_split(le64(s1), spec_u32_to_le_bytes(n1), le64(s2), spec_u32_to_le_bytes(n2));
    lemma_le64_injective(s1, s2);
    assert(spec_u32_to_le_bytes(n1).len() == 4);
    assert(spec_u32_to_le_bytes(n2).len() == 4);
}

/// Touching a file or bumping an adapter's version never reuses a key: two
/// keys of one adapter name and one path are equal only where the version
/// and the modification time are; a recursive key, for one roster and one
/// path, only where the modification time is.
pub proof fn lemma_key_changes_with_mtime_and_version(
    name: Seq<char>,
    v1: i32,
    v2: i32,
    roster: Seq<(Seq<char>, i32)>,
    path: Seq<char>,
    s1: u64,
    n1: u32,
    s2: u64,
    n2: u32,
)
    requires
        str_fits(name),
        str_fits(path),
    ensures
        plain_key_bytes(name, v1, path, s1, n1) == plain_key_bytes(name, v2, path, s2, n2) ==> (v1
            == v2 && s1 == s2 && n1 == n2),
        roster_key_bytes(roster, path, s1, n1) == roster_key_bytes(roster, path, s2, n2) ==> (s1 == s2
            && n1 == n2),
{
    lemma_auto_spec_u32_to_from_le_bytes();
    if plain_key_bytes(name, v1, path, s1, n1) == plain_key_bytes(name, v2, path, s2, n2) {
        let r1 = le32(v1) + (enc_str(path) + enc_time(s1, n1));
        let r2 = le32(v2) + (enc_str(path) + enc_time(s2, n2));
        assert(enc_str(name) + r1 =~= plain_key_bytes(name, v1, path, s1, n1));
        assert(enc_str(name) + r2 =~= plain_key_bytes(name, v2, path, s2, n2));
        lemma_enc_str_prefix(name, r1, name, r2);
        assert(spec_u32_to_le_bytes(#[verifier::truncate] (v1 as u32)).len() == 4);
        assert(spec_u32_to_le_bytes(#[verifier::truncate] (v2 as u32)).len() == 4);
        lemma_split(le32(v1), enc_str(path) + enc_time(s1, n1), le32(v2), enc_str(path) + enc_time(s2, n2));
        lemma_le32_injective(v1, v2);
        lemma_enc_str_prefix(path, enc_time(s1, n1), path, enc_time(s2, n2));
        lemma_time_injective(s1, n1, s2, n2);
    }
    if roster_key_bytes(roster, path, s1, n1) == roster_key_bytes(roster, path, s2, n2) {
        let head = le64(roster.len() as u64) + enc_pairs(roster);
        assert(head + (enc_str(path) + enc_time(s1, n1)) =~= roster_key_bytes(roster, path, s1, n1));
        assert(head + (enc_str(path) + enc_time(s2, n2)) =~= roster_key_bytes(roster, path, s2, n2));
        lemma_split(head, enc_str(path) + enc_time(s1, n1), head, enc_str(path) + enc_time(s2, n2));
        lemma_enc_str_prefix(path, enc_time(s1, n1), path, enc_time(s2, n2));
        lemma_time_injective(s1, n1, s2, n2);
    }
}

/// The key of a file depends on its path only through the cleaned path,
/// and never on its content: paths that clean to the same text share every
/// key.
pub proof fn lemma_equivalent_paths_share_key(
    reg: Seq<AdapterMetadata>,
    adapter: AdapterMetadata,
    active: Seq<usize>,
    p1: Seq<char>,
    p2: Seq<char>,
    secs: u64,
    nanos: u32,
)
    requires
        clean_of(p1) == clean_of(p2),
    ensures
        key_spec(reg, adapter, active, p1, secs, nanos) == key_spec(reg, adapter, active, p2, secs, nanos),
{
}

} // verus!
