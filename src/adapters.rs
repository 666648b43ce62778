use vstd::prelude::*;
use vstd::string::*;

verus! {

/// What an adapter declares about itself.
pub struct AdapterMetadata {
    pub name: String,
    pub version: i32,
    /// Its output may hold content that is fed back into the pipeline.
    pub recurses: bool,
    /// File extensions it handles, without the dot.
    pub extensions: Vec<String>,
    /// Mimetypes it handles when content is sniffed.
    pub mimetypes: Vec<String>,
}

/// Why an adapter was chosen.
pub enum FileMatcher {
    /// The file name ends in this extension.
    Fast(String),
    /// The sniffed content has this mimetype.
    Accurate(String),
}

/// The reason of a match, as plain sequences.
pub enum MatchReason {
    Fast(Seq<char>),
    Accurate(Seq<char>),
}

impl View for FileMatcher {
    type V = MatchReason;

    open spec fn view(&self) -> MatchReason {
        match self {
            FileMatcher::Fast(e) => MatchReason::Fast(e@),
            FileMatcher::Accurate(m) => MatchReason::Accurate(m@),
        }
    }
}

/// A candidate file as the matcher sees it.
pub struct FileMeta {
    pub mimetype: Option<String>,
    pub lossy_filename: String,
}

/// An optional string as an optional sequence.
pub open spec fn opt_view(o: Option<String>) -> Option<Seq<char>> {
    match o {
        Some(s) => Some(s@),
        None => None,
    }
}

/// The file name ends in `.` followed by the extension.
pub open spec fn ends_with_ext(f: Seq<char>, e: Seq<char>) -> bool {
    &&& f.len() >= e.len() + 1
    &&& f.subrange(f.len() - e.len() - 1, f.len() as int) == seq!['.'] + e
}

/// The first of `exts`, from position `k` on, that the file name ends in.
pub open spec fn first_ext_from(exts: Seq<String>, f: Seq<char>, k: int) -> Option<Seq<char>>
    decreases exts.len() - k,
{
    if k < 0 || k >= exts.len() {
        None
    } else if ends_with_ext(f, exts[k]@) {
        Some(exts[k]@)
    } else {
        first_ext_from(exts, f, k + 1)
    }
}

/// The adapter declares the mimetype.
pub open spec fn handles_mime(a: AdapterMetadata, m: Seq<char>) -> bool {
    exists|j: int| 0 <= j < a.mimetypes@.len() && (#[trigger] a.mimetypes@[j])@ == m
}

/// Every entry of `active` names an adapter of the registry.
pub open spec fn active_valid(reg: Seq<AdapterMetadata>, active: Seq<usize>) -> bool {
    forall|i: int| 0 <= i < active.len() ==> (#[trigger] active[i]) < reg.len()
}

/// The first active adapter, from position `k` on, with an extension that
/// the file name ends in, and that extension.
pub open spec fn ext_pick(
    reg: Seq<AdapterMetadata>,
    active: Seq<usize>,
    f: Seq<char>,
    k: int,
) -> Option<(usize, Seq<char>)>
    decreases active.len() - k,
{
    if k < 0 || k >= active.len() {
        None
    } else {
        match first_ext_from(reg[active[k] as int].extensions@, f, 0) {
            Some(e) => Some((active[k], e)),
            None => ext_pick(reg, active, f, k + 1),
        }
    }
}

/// The first active adapter, from position `k` on, that declares the mimetype.
pub open spec fn mime_pick(reg: Seq<AdapterMetadata>, active: Seq<usize>, m: Seq<char>, k: int) -> Option<usize>
    decreases active.len() - k,
{
    if k < 0 || k >= active.len() {
        None
    } else if handles_mime(reg[active[k] as int], m) {
        Some(active[k])
    } else {
        mime_pick(reg, active, m, k + 1)
    }
}

/// The adapter chosen for a file and why: with a sniffed mimetype, the first
/// active adapter declaring it; otherwise, or where none does, the first
/// active adapter with an extension that the file name ends in.
pub open spec fn match_spec(
    reg: Seq<AdapterMetadata>,
    active: Seq<usize>,
    mimetype: Option<Seq<char>>,
    f: Seq<char>,
) -> Option<(usize, MatchReason)> {
    let by_ext = match ext_pick(reg, active, f, 0) {
        Some(p) => Some((p.0, MatchReason::Fast(p.1))),
        None => None,
    };
    match mimetype {
        Some(m) => match mime_pick(reg, active, m, 0) {
            Some(i) => Some((i, MatchReason::Accurate(m))),
            None => by_ext,
        },
        None => by_ext,
    }
}

/// Whether the file name ends in `.` and the extension.
pub fn ends_with_extension(f: &str, e: &str) -> (r: bool)
    ensures
        r == ends_with_ext(f@, e@),
{
    let fl = f.unicode_len();
    let el = e.unicode_len();
    if fl < el || fl - el < 1 {
        return false;
    }
    let start: usize = fl - el - 1;
    if f.get_char(start) != '.' {
        assert(f@.subrange(start as int, fl as int)[0] != (seq!['.'] + e@)[0]);
        return false;
    }
    let mut i: usize = 0;
    while i < el
        invariant
            fl == f@.len(),
            el == e@.len(),
            start + el + 1 == fl,
            i <= el,
            f@[start as int] == '.',
            forall|j: int| 0 <= j < i ==> f@[start + 1 + j] == e@[j],
        decreases el - i,
    {
        if f.get_char(start + 1 + i) != e.get_char(i) {
            assert(f@.subrange(start as int, fl as int)[i + 1] != (seq!['.'] + e@)[i + 1]);
            return false;
        }
        i = i + 1;
    }
    assert(f@.subrange(start as int, fl as int) =~= seq!['.'] + e@);
    true
}

fn first_extension<'a>(exts: &'a Vec<String>, f: &str) -> (r: Option<&'a String>)
    ensures
        match first_ext_from(exts@, f@, 0) {
            Some(e) => r matches Some(s) && s@ == e,
            None => r is None,
        },
{
    let mut k: usize = 0;
    while k < exts.len()
        invariant
            k <= exts@.len(),
            first_ext_from(exts@, f@, 0) == first_ext_from(exts@, f@, k as int),
        decreases exts@.len() - k,
    {
        if ends_with_extension(f, exts[k].as_str()) {
            return Some(&exts[k]);
        }
        k = k + 1;
    }
    None
}

fn declares_mime(a: &AdapterMetadata, m: &String) -> (r: bool)
    ensures
        r == handles_mime(*a, m@),
{
    let mut j: usize = 0;
    while j < a.mimetypes.len()
        invariant
            j <= a.mimetypes@.len(),
            forall|i: int| 0 <= i < j ==> (#[trigger] a.mimetypes@[i])@ != m@,
        decreases a.mimetypes@.len() - j,
    {
        if a.mimetypes[j] == *m {
            return true;
        }
        j = j + 1;
    }
    false
}

/// Picks the adapter for a file among the active ones, and says why.
pub fn match_adapter(reg: &Vec<AdapterMetadata>, active: &Vec<usize>, meta: &FileMeta) -> (r: Option<(usize, FileMatcher)>)
    requires
        active_valid(reg@, active@),
    ensures
        match match_spec(reg@, active@, opt_view(meta.mimetype), meta.lossy_filename@) {
            Some(p) => r matches Some(q) && q.0 == p.0 && q.1@ == p.1,
            None => r is None,
        },
{
    if meta.mimetype.is_some() {
        let m = meta.mimetype.as_ref().unwrap();
        let mut k: usize = 0;
        while k < active.len()
            invariant
                k <= active@.len(),
                active_valid(reg@, active@),
                mime_pick(reg@, active@, m@, 0) == mime_pick(reg@, active@, m@, k as int),
                opt_view(meta.mimetype) == Some(m@),
            decreases active@.len() - k,
        {
            let a = active[k];
            if declares_mime(&reg[a], m) {
                assert(mime_pick(reg@, active@, m@, k as int) == Some(a));
                let r = FileMatcher::Accurate(m.clone());
                assert(r@ == MatchReason::Accurate(m@));
                assert(opt_view(meta.mimetype) == Some(m@));
                return Some((a, r));
            }
            k = k + 1;
        }
        assert(mime_pick(reg@, active@, m@, 0) is None);
        assert(opt_view(meta.mimetype)->0 == m@);
    }
    let fname = meta.lossy_filename.as_str();
    let mut k: usize = 0;
    while k < active.len()
        invariant
            k <= active@.len(),
            active_valid(reg@, active@),
            ext_pick(reg@, active@, meta.lossy_filename@, 0) == ext_pick(reg@, active@, meta.lossy_filename@, k as int),
            fname@ == meta.lossy_filename@,
            opt_view(meta.mimetype) is Some ==> mime_pick(reg@, active@, opt_view(meta.mimetype)->0, 0) is None,
        decreases active@.len() - k,
    {
        let a = active[k];
        match first_extension(&reg[a].extensions, fname) {
            Some(e) => {
                assert(ext_pick(reg@, active@, meta.lossy_filename@, k as int) == Some((a, e@)));
                let r = FileMatcher::Fast(e.clone());
                assert(r@ == MatchReason::Fast(e@));
                return Some((a, r));
            },
            None => {},
        }
        k = k + 1;
    }
    None
}


/// The first adapter of the registry, from position `k` on, with this name.
pub open spec fn find_named(reg: Seq<AdapterMetadata>, n: Seq<char>, k: int) -> Option<usize>
    decreases reg.len() - k,
{
    if k < 0 || k >= reg.len() {
        None
    } else if reg[k].name@ == n {
        Some(k as usize)
    } else {
        find_named(reg, n, k + 1)
    }
}

fn index_of_name(reg: &Vec<AdapterMetadata>, n: &String) -> (r: Option<usize>)
    ensures
        r == find_named(reg@, n@, 0),
        r matches Some(i) ==> i < reg@.len(),
{
    let mut k: usize = 0;
    while k < reg.len()
        invariant
            k <= reg@.len(),
            find_named(reg@, n@, 0) == find_named(reg@, n@, k as int),
        decreases reg@.len() - k,
    {
        if reg[k].name == *n {
            return Some(k);
        }
        k = k + 1;
    }
    None
}

/// Every name of the allowlist is some adapter's.
pub open spec fn filter_ok(reg: Seq<AdapterMetadata>, allow: Seq<String>) -> bool {
    forall|i: int| 0 <= i < allow.len() ==> (#[trigger] find_named(reg, allow[i]@, 0)) is Some
}

/// The active adapters as positions in the registry: all of them where the
/// allowlist is empty, else the first adapter of each allowlisted name.
pub open spec fn active_spec(reg: Seq<AdapterMetadata>, allow: Seq<String>) -> Seq<usize> {
    if allow.len() == 0 {
        Seq::new(reg.len(), |i: int| i as usize)
    } else {
        allow.map_values(|n: String| find_named(reg, n@, 0)->0)
    }
}

/// The adapters that take part, as positions in the registry: all of them,
/// in registry order, where the allowlist is empty; otherwise those it names,
/// in its order. A name that no adapter has is returned as the error.
pub fn get_adapters_filtered(reg: &Vec<AdapterMetadata>, allowlist: &Vec<String>) -> (r: Result<Vec<usize>, String>)
    ensures
        allowlist@.len() == 0 ==> (r matches Ok(v) && v@ == Seq::new(reg@.len(), |i: int| i as usize)),
        allowlist@.len() > 0 ==> (r is Ok <==> forall|i: int|
            0 <= i < allowlist@.len() ==> (#[trigger] find_named(reg@, allowlist@[i]@, 0)) is Some),
        allowlist@.len() > 0 ==> (r matches Ok(v) ==> (v@.len() == allowlist@.len() && forall|i: int|
            0 <= i < allowlist@.len() ==> Some(#[trigger] v@[i]) == find_named(reg@, allowlist@[i]@, 0))),
        r matches Err(n) ==> (exists|i: int|
            0 <= i < allowlist@.len() && allowlist@[i]@ == n@ && (#[trigger] find_named(reg@, allowlist@[i]@, 0)) is None),
        r matches Ok(v) ==> active_valid(reg@, v@),
        r is Ok <==> filter_ok(reg@, allowlist@),
        r matches Ok(v) ==> v@ == active_spec(reg@, allowlist@),
{
    let mut out: Vec<usize> = Vec::new();
    if allowlist.len() == 0 {
        let mut k: usize = 0;
        while k < reg.len()
            invariant
                k <= reg@.len(),
                out@ == Seq::new(k as nat, |i: int| i as usize),
            decreases reg@.len() - k,
        {
            out.push(k);
            k = k + 1;
            assert(out@ =~= Seq::new(k as nat, |i: int| i as usize));
        }
        assert(out@ =~= active_spec(reg@, allowlist@));
        return Ok(out);
    }
    let mut j: usize = 0;
    while j < allowlist.len()
        invariant
            j <= allowlist@.len(),
            out@.len() == j,
            active_valid(reg@, out@),
            forall|i: int| 0 <= i < j ==> Some(#[trigger] out@[i]) == find_named(reg@, allowlist@[i]@, 0),
        decreases allowlist@.len() - j,
    {
        match index_of_name(reg, &allowlist[j]) {
            Some(i) => {
                out.push(i);
            },
            None => {
                return Err(allowlist[j].clone());
            },
        }
        j = j + 1;
    }
    assert forall|i: int| 0 <= i < allowlist@.len() implies (#[trigger] find_named(reg@, allowlist@[i]@, 0)) is Some by {
        assert(Some(out@[i]) == find_named(reg@, allowlist@[i]@, 0));
    }
    assert forall|i: int| 0 <= i < allowlist@.len() implies out@[i] == #[trigger] active_spec(reg@, allowlist@)[i] by {
        assert(Some(out@[i]) == find_named(reg@, allowlist@[i]@, 0));
    }
    assert(out@ =~= active_spec(reg@, allowlist@));
    Ok(out)
}

} // verus!
