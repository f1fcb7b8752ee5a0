//! What kind of document a path points at, decided from its extension.

use vstd::prelude::*;

use crate::error::Error;
use crate::file_object::last_at;
use vstd::multiset::Multiset;

verus! {

/// The extension of a path: what follows the last dot of its filename
/// component, unless there is no dot or the name starts with its only dot.
pub open spec fn spec_extension(p: Seq<char>) -> Option<Seq<char>> {
    let name = crate::file_object::spec_file_name(p);
    if exists|i: int| last_at(name, '.', i) {
        let i = choose|i: int| last_at(name, '.', i);
        if i == 0 {
            None
        } else {
            Some(name.subrange(i + 1, name.len() as int))
        }
    } else {
        None
    }
}

/// The extension names a PDF document, in any letter case.
pub open spec fn is_pdf_extension(e: Seq<char>) -> bool {
    &&& e.len() == 3
    &&& (e[0] == 'p' || e[0] == 'P')
    &&& (e[1] == 'd' || e[1] == 'D')
    &&& (e[2] == 'f' || e[2] == 'F')
}

/// A path names a document the pipeline accepts.
pub open spec fn is_supported_path(p: Seq<char>) -> bool {
    match spec_extension(p) {
        Some(e) => is_pdf_extension(e),
        None => false,
    }
}

/// A classified file path: the only kind currently accepted is PDF.
#[derive(Debug, Clone, PartialEq)]
pub enum FileInfo {
    PDF(String),
    PNG(String),
    JPEG(String),
}

fn find_last_char(s: &str, c: char) -> (r: Option<usize>)
    ensures
        match r {
            Some(i) => last_at(s@, c, i as int),
            None => forall|j: int| 0 <= j < s@.len() ==> s@[j] != c,
        },
{
    let len = s.unicode_len();
    let mut i: usize = len;
    while i > 0
        invariant
            i <= len,
            forall|j: int| i <= j < s@.len() ==> s@[j] != c,
        decreases i,
    {
        i = i - 1;
        if s.get_char(i) == c {
            return Some(i);
        }
    }
    None
}

impl FileInfo {
    /// Accepts a path whose extension names a PDF document, in any letter
    /// case; any other path is refused as unsupported.
    pub fn new(path: String) -> (r: Result<FileInfo, Error>)
        ensures
            match r {
                Ok(f) => is_supported_path(path@) && f == FileInfo::PDF(path),
                Err(e) => !is_supported_path(path@) && e == Error::UnsupportedFileTypeError(path),
            },
    {
        let name = match crate::file_object::file_name_of(path.as_str()) {
            Some(n) => n,
            None => {
                proof {
                    lemma_no_dot_in_empty(path@);
                }
                return Err(Error::UnsupportedFileTypeError(path));
            },
        };
        let len = name.as_str().unicode_len();
        match find_last_char(name.as_str(), '.') {
            Some(i) if i > 0 => {
                proof {
                    lemma_last_at_unique(name@, '.', i as int);
                }
                let ext = name.as_str().substring_char(i + 1, len);
                let ok = ext.unicode_len() == 3 && {
                    let c0 = ext.get_char(0);
                    let c1 = ext.get_char(1);
                    let c2 = ext.get_char(2);
                    (c0 == 'p' || c0 == 'P') && (c1 == 'd' || c1 == 'D') && (c2 == 'f' || c2
                        == 'F')
                };
                if ok {
                    Ok(FileInfo::PDF(path))
                } else {
                    Err(Error::UnsupportedFileTypeError(path))
                }
            },
            Some(i) => {
                proof {
                    lemma_last_at_unique(name@, '.', i as int);
                }
                Err(Error::UnsupportedFileTypeError(path))
            },
            None => {
                proof {
                    if exists|w: int| last_at(name@, '.', w) {
                        let w = choose|w: int| last_at(name@, '.', w);
                        assert(name@[w] != '.');
                    }
                }
                Err(Error::UnsupportedFileTypeError(path))
            },
        }
    }

    /// The MIME type under which the file's page images are transported.
    pub fn mime_type(&self) -> (r: String)
        ensures
            self matches FileInfo::JPEG(_) ==> r@ == "image/jpeg"@,
            !(self matches FileInfo::JPEG(_)) ==> r@ == "image/png"@,
    {
        match self {
            FileInfo::PDF(_) => "image/png".to_owned(),
            FileInfo::PNG(_) => "image/png".to_owned(),
            FileInfo::JPEG(_) => "image/jpeg".to_owned(),
        }
    }
}

/// `s` is one or more decimal digits.
pub open spec fn is_digits(s: Seq<char>) -> bool {
    s.len() > 0 && forall|i: int| 0 <= i < s.len() ==> '0' <= #[trigger] s[i] <= '9'
}

/// The number the decimal digits denote.
pub open spec fn digits_val(s: Seq<char>) -> int
    decreases s.len(),
{
    if s.len() == 0 {
        0
    } else {
        digits_val(s.drop_last()) * 10 + (s.last() as int - '0' as int)
    }
}

proof fn lemma_digits_val_bounds(s: Seq<char>)
    requires
        forall|i: int| 0 <= i < s.len() ==> '0' <= #[trigger] s[i] <= '9',
    ensures
        digits_val(s) >= 0,
    decreases s.len(),
{
    if s.len() > 0 {
        lemma_digits_val_bounds(s.drop_last());
    }
}

/// A digit string's value never falls below the value of any prefix.
proof fn lemma_digits_val_monotone(s: Seq<char>, i: int)
    requires
        forall|k: int| 0 <= k < s.len() ==> '0' <= #[trigger] s[k] <= '9',
        0 <= i <= s.len(),
    ensures
        digits_val(s.take(i)) <= digits_val(s),
    decreases s.len(),
{
    if i == s.len() {
        assert(s.take(i) =~= s);
    } else {
        assert(s.take(i) =~= s.drop_last().take(i));
        lemma_digits_val_monotone(s.drop_last(), i);
        lemma_digits_val_bounds(s.drop_last());
    }
}

/// The page number a rasterized page file encodes: names of the shape
/// `image-N.png` with `N` decimal digits (optionally `+`-signed) that fit
/// a page counter; anything else carries none.
pub open spec fn spec_page_number(name: Seq<char>) -> Option<int> {
    if name.len() >= 11 && name.subrange(0, 6) == "image-"@ && name.subrange(
        name.len() - 4,
        name.len() as int,
    ) == ".png"@ {
        let mid = name.subrange(6, name.len() - 4);
        let digits = if mid[0] == '+' {
            mid.drop_first()
        } else {
            mid
        };
        if is_digits(digits) && digits_val(digits) <= u32::MAX as int {
            Some(digits_val(digits))
        } else {
            None
        }
    } else {
        None
    }
}

/// The page number of a rasterized page file, as the conversion step
/// names them.
pub fn page_number(name: &str) -> (r: Option<u32>)
    ensures
        match r {
            Some(v) => spec_page_number(name@) == Some(v as int),
            None => spec_page_number(name@) is None,
        },
{
    proof {
        reveal_strlit("image-");
        reveal_strlit(".png");
    }
    let len = name.unicode_len();
    if len < 11 {
        return None;
    }
    let prefix_ok = name.get_char(0) == 'i' && name.get_char(1) == 'm' && name.get_char(2) == 'a'
        && name.get_char(3) == 'g' && name.get_char(4) == 'e' && name.get_char(5) == '-';
    let suffix_ok = name.get_char(len - 4) == '.' && name.get_char(len - 3) == 'p'
        && name.get_char(len - 2) == 'n' && name.get_char(len - 1) == 'g';
    if !prefix_ok || !suffix_ok {
        proof {
            if name@.subrange(0, 6) == "image-"@ && name@.subrange(
                name@.len() - 4,
                name@.len() as int,
            ) == ".png"@ {
                assert(name@.subrange(0, 6)[0] == name@[0]);
                assert(name@.subrange(0, 6)[1] == name@[1]);
                assert(name@.subrange(0, 6)[2] == name@[2]);
                assert(name@.subrange(0, 6)[3] == name@[3]);
                assert(name@.subrange(0, 6)[4] == name@[4]);
                assert(name@.subrange(0, 6)[5] == name@[5]);
                assert(name@.subrange(name@.len() - 4, name@.len() as int)[0] == name@[name@.len()
                    - 4]);
                assert(name@.subrange(name@.len() - 4, name@.len() as int)[1] == name@[name@.len()
                    - 3]);
                assert(name@.subrange(name@.len() - 4, name@.len() as int)[2] == name@[name@.len()
                    - 2]);
                assert(name@.subrange(name@.len() - 4, name@.len() as int)[3] == name@[name@.len()
                    - 1]);
                assert(false);
            }
        }
        return None;
    }
    proof {
        assert(name@.subrange(0, 6) =~= "image-"@);
        assert(name@.subrange(name@.len() - 4, name@.len() as int) =~= ".png"@);
    }
    let start: usize = if name.get_char(6) == '+' {
        7
    } else {
        6
    };
    let ghost mid = name@.subrange(6, name@.len() - 4);
    let ghost digits = name@.subrange(start as int, name@.len() - 4);
    proof {
        if mid[0] == '+' {
            assert(digits =~= mid.drop_first());
        } else {
            assert(digits =~= mid);
        }
    }
    if start == len - 4 {
        return None;
    }
    let mut acc: u64 = 0;
    let mut i: usize = start;
    while i < len - 4
        invariant
            start <= i <= len - 4,
            len == name@.len(),
            start < len - 4,
            digits == name@.subrange(start as int, name@.len() - 4),
            forall|k: int| 0 <= k < i - start ==> '0' <= #[trigger] digits[k] <= '9',
            acc == digits_val(digits.take(i - start)),
            acc <= u32::MAX,
        decreases len - i,
    {
        let c = name.get_char(i);
        if c < '0' || c > '9' {
            proof {
                assert(digits[i - start] == name@[i as int]);
            }
            return None;
        }
        let d = (c as u32 - '0' as u32) as u64;
        proof {
            assert(digits.take(i + 1 - start).drop_last() =~= digits.take(i - start));
            assert(digits.take(i + 1 - start).last() == digits[i - start]);
        }
        acc = acc * 10 + d;
        i = i + 1;
        if acc > u32::MAX as u64 {
            proof {
                let taken = i - start;
                assert(forall|k: int| 0 <= k < taken ==> '0' <= #[trigger] digits[k] <= '9');
                if is_digits(digits) {
                    lemma_digits_val_monotone(digits, taken as int);
                }
            }
            return None;
        }
    }
    proof {
        assert(digits.take(i - start) =~= digits);
        assert(is_digits(digits));
    }
    Some(acc as u32)
}

/// The rasterized page files among the given directory entries, in page
/// order: exactly the entries of the `image-N.png` shape, sorted by `N`.
pub fn collect_page_images(names: &Vec<String>) -> (r: Vec<String>)
    ensures
        r@.to_multiset() == names@.filter(
            |n: String| spec_page_number(n@) is Some,
        ).to_multiset(),
        forall|i: int, j: int|
            0 <= i < j < r@.len() ==> spec_page_number(r@[i]@)->Some_0 <= spec_page_number(
                r@[j]@,
            )->Some_0,
{
    broadcast use vstd::seq_lib::group_to_multiset_ensures;

    let ghost pred = |n: String| spec_page_number(n@) is Some;
    let mut pending: Vec<(u32, String)> = Vec::new();
    let mut i: usize = 0;
    while i < names.len()
        invariant
            i <= names@.len(),
            pending@.map_values(|p: (u32, String)| p.1).to_multiset() == names@.take(
                i as int,
            ).filter(|n: String| spec_page_number(n@) is Some).to_multiset(),
            forall|k: int|
                0 <= k < pending@.len() ==> spec_page_number(#[trigger] pending@[k].1@) == Some(
                    pending@[k].0 as int,
                ),
        decreases names@.len() - i,
    {
        let ghost snap = pending@;
        match page_number(names[i].as_str()) {
            Some(n) => {
                pending.push((n, names[i].clone()));
                proof {
                    assert(pending@.map_values(|p: (u32, String)| p.1) =~= snap.map_values(
                        |p: (u32, String)| p.1,
                    ).push(names@[i as int]));
                }
            },
            None => {},
        }
        proof {
            let f = |n: String| spec_page_number(n@) is Some;
            assert(names@.take(i + 1).drop_last() =~= names@.take(i as int));
            assert(names@.take(i + 1).last() == names@[i as int]);
            seq_filter_unfold(names@.take(i + 1), f);
        }
        i = i + 1;
    }
    proof {
        assert(names@.take(names@.len() as int) =~= names@);
    }
    // Selection by repeated minimum keeps the multiset and yields page order.
    let mut sorted: Vec<(u32, String)> = Vec::new();
    while pending.len() > 0
        invariant
            sorted@.map_values(|p: (u32, String)| p.1).to_multiset().add(
                pending@.map_values(|p: (u32, String)| p.1).to_multiset(),
            ) == names@.filter(|n: String| spec_page_number(n@) is Some).to_multiset(),
            forall|k: int|
                0 <= k < pending@.len() ==> spec_page_number(#[trigger] pending@[k].1@) == Some(
                    pending@[k].0 as int,
                ),
            forall|k: int|
                0 <= k < sorted@.len() ==> spec_page_number(#[trigger] sorted@[k].1@) == Some(
                    sorted@[k].0 as int,
                ),
            forall|a: int, b: int|
                0 <= a < b < sorted@.len() ==> sorted@[a].0 <= sorted@[b].0,
            forall|a: int, b: int|
                0 <= a < sorted@.len() && 0 <= b < pending@.len() ==> sorted@[a].0
                    <= pending@[b].0,
        decreases pending@.len(),
    {
        let mut min: usize = 0;
        let mut j: usize = 1;
        while j < pending.len()
            invariant
                min < j <= pending@.len(),
                pending@.len() > 0,
                forall|k: int| 0 <= k < j ==> pending@[min as int].0 <= pending@[k].0,
            decreases pending@.len() - j,
        {
            if pending[j].0 < pending[min].0 {
                min = j;
            }
            j = j + 1;
        }
        let ghost before = pending@;
        let ghost prev = sorted@;
        let entry = pending.remove(min);
        sorted.push(entry);
        proof {
            let to_name = |p: (u32, String)| p.1;
            let x = before[min as int].1;
            assert(before.map_values(to_name)[min as int] == x);
            assert(before.map_values(to_name).remove(min as int) =~= before.remove(
                min as int,
            ).map_values(to_name));
            assert(sorted@.map_values(to_name) =~= prev.map_values(to_name).push(x));
            assert(before.map_values(to_name).contains(x));
            assert(before.map_values(to_name).to_multiset().count(x) > 0);
            assert(prev.map_values(to_name).to_multiset().insert(x).add(
                before.map_values(to_name).to_multiset().remove(x),
            ) =~= prev.map_values(to_name).to_multiset().add(
                before.map_values(to_name).to_multiset(),
            ));
        }
    }
    let mut out: Vec<String> = Vec::new();
    let mut k: usize = 0;
    while k < sorted.len()
        invariant
            k <= sorted@.len(),
            out@ =~= sorted@.take(k as int).map_values(|p: (u32, String)| p.1),
        decreases sorted@.len() - k,
    {
        out.push(sorted[k].1.clone());
        proof {
            assert(sorted@.take(k + 1).map_values(|p: (u32, String)| p.1) =~= sorted@.take(
                k as int,
            ).map_values(|p: (u32, String)| p.1).push(sorted@[k as int].1));
        }
        k = k + 1;
    }
    proof {
        assert(sorted@.take(sorted@.len() as int) =~= sorted@);
        assert(out@ =~= sorted@.map_values(|p: (u32, String)| p.1));
        assert(pending@.map_values(|p: (u32, String)| p.1).to_multiset() =~= Multiset::<
            String,
        >::empty());
        assert(out@.to_multiset() =~= names@.filter(
            |n: String| spec_page_number(n@) is Some,
        ).to_multiset());
        assert forall|a: int, b: int| 0 <= a < b < out@.len() implies spec_page_number(
            out@[a]@,
        )->Some_0 <= spec_page_number(out@[b]@)->Some_0 by {
            assert(out@[a] == sorted@[a].1);
            assert(out@[b] == sorted@[b].1);
        }
    }
    out
}

/// One unfolding step of sequence filtering.
proof fn seq_filter_unfold(s: Seq<String>, pred: spec_fn(String) -> bool)
    requires
        s.len() > 0,
    ensures
        s.filter(pred) == if pred(s.last()) {
            s.drop_last().filter(pred).push(s.last())
        } else {
            s.drop_last().filter(pred)
        },
{
    reveal(Seq::filter);
}

/// A found last occurrence is the one the specification's `choose` denotes.
proof fn lemma_last_at_unique(s: Seq<char>, c: char, i: int)
    requires
        last_at(s, c, i),
    ensures
        (choose|w: int| last_at(s, c, w)) == i,
{
    let w = choose|w: int| last_at(s, c, w);
    if w != i {
        if w < i {
            assert(s[i] != c);
        } else {
            assert(s[w] != c);
        }
    }
}

/// An empty filename holds no dot, so it yields no extension.
proof fn lemma_no_dot_in_empty(p: Seq<char>)
    requires
        crate::file_object::spec_file_name(p).len() == 0,
    ensures
        spec_extension(p) is None,
{
    let name = crate::file_object::spec_file_name(p);
    if exists|i: int| last_at(name, '.', i) {
        let i = choose|i: int| last_at(name, '.', i);
        assert(0 <= i < name.len());
    }
}

} // verus!
