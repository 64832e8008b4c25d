//! A comic being converted: its title, where its output goes, and its
//! processed pages, kept in name order without duplicates.

use vstd::prelude::*;
use crate::archive::{extension_of, file_stem, joined_name_splits_back, path_stem, name_stem, stem_of};
use crate::settings::{ImageFormat, OutputFormat, format_extension, output_extension};
use crate::text::{chars_of, decimal, decimal_chars, push_char, push_str, string_of};

verus! {

/// `Path::new(base).join(rest)` as text: `rest` appended to `base` as a
/// further path component (or replacing it when `rest` is absolute).
pub uninterp spec fn path_join(base: Seq<char>, rest: Seq<char>) -> Seq<char>;

/// `std::path::Path::join`, converted back to a `String` (both parts are
/// UTF-8, so the conversion loses nothing).
#[verifier::external_body]
fn join_path(base: &str, rest: &str) -> (r: String)
    ensures
        r@ == path_join(base@, rest@),
{
    std::path::Path::new(base).join(rest).to_string_lossy().into_owned()
}

/// A comic file to convert.
#[derive(Debug)]
pub struct Comic {
    /// The file's stem, shown while converting.
    pub title: String,
    /// Where the converted file goes.
    pub output_dir: String,
    /// The comic archive.
    pub input: String,
}

/// The name of the converted file: the input's stem (every dot kept but
/// the extension's), a dot, and the output format's extension.
pub open spec fn output_file_name(input: Seq<char>, format: OutputFormat) -> Seq<char> {
    path_stem(input)->0 + "."@ + output_extension(format)
}

impl Comic {
    /// A comic for the archive `file`, titled by the file's stem.
    pub fn new(file: String, output_dir: String) -> (r: Comic)
        requires
            path_stem(file@) is Some,
        ensures
            r.title@ == path_stem(file@)->0,
            r.input == file,
            r.output_dir == output_dir,
    {
        let title = match file_stem(file.as_str()) {
            Some(t) => t,
            None => String::new(),
        };
        Comic { title, output_dir, input: file }
    }

    /// A comic for the archive `file`, or `None` when the path names no
    /// file (it ends in `..` or has no components).
    pub fn try_new(file: String, output_dir: String) -> (r: Option<Comic>)
        ensures
            r is Some <==> path_stem(file@) is Some,
            r matches Some(c) ==> c.title@ == path_stem(file@)->0 && c.input == file
                && c.output_dir == output_dir,
    {
        match file_stem(file.as_str()) {
            Some(_) => Some(Comic::new(file, output_dir)),
            None => None,
        }
    }

    /// The path of the converted file: the output directory joined with
    /// the input's stem and the format's extension (the stem keeps every dot
    /// it has: "Dr. STONE v01.cbz" becomes "Dr. STONE v01.epub").
    pub fn output_path(&self, output_format: OutputFormat) -> (r: String)
        requires
            path_stem(self.input@) is Some,
        ensures
            r@ == path_join(self.output_dir@, output_file_name(self.input@, output_format)),
    {
        let mut name = match file_stem(self.input.as_str()) {
            Some(t) => t,
            None => String::new(),
        };
        push_char(&mut name, '.');
        push_str(&mut name, output_format.extension());
        proof {
            reveal_strlit(".");
            assert(name@ =~= output_file_name(self.input@, output_format));
        }
        join_path(self.output_dir.as_str(), name.as_str())
    }
}

/// `str::trim`: the text without its leading and trailing Unicode white
/// space.
pub uninterp spec fn trimmed(s: Seq<char>) -> Seq<char>;

/// `str::trim`, as an owned string.
#[verifier::external_body]
fn trim_text(s: &str) -> (r: String)
    ensures
        r@ == trimmed(s@),
{
    s.trim().to_string()
}

/// The title a comic is shown and written under: the prefix (trimmed), a
/// space and the title, when a prefix is given and is not blank; else the
/// title.
pub open spec fn prefixed_title(prefix: Option<Seq<char>>, title: Seq<char>) -> Seq<char> {
    match prefix {
        Some(p) => if trimmed(p).len() > 0 {
            trimmed(p) + " "@ + title
        } else {
            title
        },
        None => title,
    }
}

/// The title of a comic with an optional prefix.
pub fn full_title(prefix: Option<&str>, title: &str) -> (r: String)
    ensures
        r@ == prefixed_title(
            match prefix {
                Some(p) => Some(p@),
                None => None,
            },
            title@,
        ),
{
    match prefix {
        Some(p) => {
            let t = trim_text(p);
            if !t.as_str().is_empty() {
                let mut r = t;
                push_str(&mut r, " ");
                push_str(&mut r, title);
                r
            } else {
                title.to_owned()
            }
        },
        None => title.to_owned(),
    }
}

/// One encoded device page.
#[derive(Debug)]
pub struct ProcessedImage {
    /// Its name in the package; pages are ordered by name.
    pub file_name: String,
    /// The encoded image.
    pub data: Vec<u8>,
    /// (width, height) in pixels.
    pub dimensions: (u32, u32),
    /// How `data` is encoded.
    pub format: ImageFormat,
}

/// The name of device page `index` (from 0) made from the archive entry
/// `source`: the entry's stem, '_', the page number from 1, '.', and the
/// format's extension.
pub open spec fn page_file_name(source: Seq<char>, index: nat, format: ImageFormat) -> Seq<char> {
    stem_of(source) + "_"@ + decimal(index + 1) + "."@ + format_extension(format)
}

/// The name of device page `index` made from the entry named `source`.
pub fn page_name_for(source: &str, index: u32, format: ImageFormat) -> (r: String)
    ensures
        r@ == page_file_name(source@, index as nat, format),
{
    let mut name = name_stem(source);
    push_char(&mut name, '_');
    let digits = decimal_chars(index as u64 + 1);
    let number = string_of(&digits);
    push_str(&mut name, number.as_str());
    push_char(&mut name, '.');
    push_str(&mut name, format.extension());
    proof {
        reveal_strlit(".");
        reveal_strlit("_");
        assert(name@ =~= page_file_name(source@, index as nat, format));
    }
    name
}

/// Lexicographic order of names by character (the order of `String`'s
/// `Ord`, which compares UTF-8 bytes, and UTF-8 keeps the order of
/// characters).
pub open spec fn name_lt(a: Seq<char>, b: Seq<char>) -> bool
    decreases a.len(),
{
    if a.len() == 0 {
        b.len() > 0
    } else if b.len() == 0 {
        false
    } else if a[0] != b[0] {
        a[0] < b[0]
    } else {
        name_lt(a.drop_first(), b.drop_first())
    }
}

/// `name_lt` is transitive.
pub proof fn lemma_name_lt_transitive(a: Seq<char>, b: Seq<char>, c: Seq<char>)
    requires
        name_lt(a, b),
        name_lt(b, c),
    ensures
        name_lt(a, c),
    decreases a.len(),
{
    if a.len() > 0 && b.len() > 0 && c.len() > 0 && a[0] == b[0] && b[0] == c[0] {
        lemma_name_lt_transitive(a.drop_first(), b.drop_first(), c.drop_first());
    }
}

/// `name_lt` is irreflexive and asymmetric, and any two different names
/// are ordered one way or the other.
pub proof fn lemma_name_lt_total(a: Seq<char>, b: Seq<char>)
    ensures
        !name_lt(a, a),
        name_lt(a, b) ==> !name_lt(b, a),
        a != b ==> name_lt(a, b) || name_lt(b, a),
    decreases a.len(),
{
    if a.len() > 0 {
        lemma_name_lt_total(a.drop_first(), a.drop_first());
        if b.len() > 0 {
            lemma_name_lt_total(a.drop_first(), b.drop_first());
            if a[0] == b[0] && a != b {
                assert(a.drop_first() != b.drop_first()) by {
                    if a.drop_first() == b.drop_first() {
                        assert forall|i: int| 0 <= i < a.len() implies a[i] == b[i] by {
                            if i > 0 {
                                assert(a[i] == a.drop_first()[i - 1]);
                                assert(b[i] == b.drop_first()[i - 1]);
                            }
                        }
                        assert(a =~= b);
                    }
                }
            }
        }
    } else if b.len() == 0 {
        assert(a =~= b);
    }
}

/// Whether `a` comes before `b` by `name_lt`.
pub fn chars_lt(a: &Vec<char>, b: &Vec<char>) -> (r: bool)
    ensures
        r == name_lt(a@, b@),
{
    let mut i: usize = 0;
    proof {
        assert(a@.skip(0) =~= a@);
        assert(b@.skip(0) =~= b@);
    }
    while i < a.len() && i < b.len()
        invariant
            i <= a@.len(),
            i <= b@.len(),
            name_lt(a@, b@) == name_lt(a@.skip(i as int), b@.skip(i as int)),
        decreases a@.len() - i,
    {
        if a[i] != b[i] {
            proof {
                assert(a@.skip(i as int)[0] == a@[i as int]);
                assert(b@.skip(i as int)[0] == b@[i as int]);
            }
            return a[i] < b[i];
        }
        proof {
            assert(a@.skip(i as int).drop_first() =~= a@.skip(i + 1));
            assert(b@.skip(i as int).drop_first() =~= b@.skip(i + 1));
        }
        i += 1;
    }
    i == a.len() && i < b.len()
}

/// Pages strictly ordered by name: sorted, and no name twice.
pub open spec fn strictly_sorted(s: Seq<ProcessedImage>) -> bool {
    forall|i: int, j: int|
        0 <= i < j < s.len() ==> name_lt(#[trigger] s[i].file_name@, #[trigger] s[j].file_name@)
}

/// The names of the pages, in order.
pub open spec fn names_of(s: Seq<ProcessedImage>) -> Seq<Seq<char>> {
    s.map_values(|e: ProcessedImage| e.file_name@)
}

proof fn lemma_insert_sorted(before: Seq<ProcessedImage>, p: int, x: ProcessedImage)
    requires
        strictly_sorted(before),
        0 <= p <= before.len(),
        forall|m: int| 0 <= m < p ==> name_lt(#[trigger] before[m].file_name@, x.file_name@),
        p < before.len() ==> name_lt(x.file_name@, before[p].file_name@),
    ensures
        strictly_sorted(before.insert(p, x)),
{
    let after = before.insert(p, x);
    assert forall|i: int, j: int| 0 <= i < j < after.len() implies name_lt(
        #[trigger] after[i].file_name@,
        #[trigger] after[j].file_name@,
    ) by {
        if j < p {
            assert(after[i] == before[i] && after[j] == before[j]);
        } else if j == p {
            assert(after[i] == before[i]);
        } else if i == p {
            assert(after[j] == before[j - 1]);
            if j - 1 > p {
                assert(name_lt(before[p].file_name@, before[j - 1].file_name@));
                lemma_name_lt_transitive(
                    x.file_name@,
                    before[p].file_name@,
                    before[j - 1].file_name@,
                );
            }
        } else if i < p {
            assert(after[i] == before[i] && after[j] == before[j - 1]);
            assert(name_lt(before[i].file_name@, x.file_name@));
            if j - 1 > p {
                assert(name_lt(before[p].file_name@, before[j - 1].file_name@));
                lemma_name_lt_transitive(
                    x.file_name@,
                    before[p].file_name@,
                    before[j - 1].file_name@,
                );
            }
            lemma_name_lt_transitive(before[i].file_name@, x.file_name@, before[j - 1].file_name@);
        } else {
            assert(after[i] == before[i - 1] && after[j] == before[j - 1]);
        }
    }
}

proof fn lemma_insert_members(
    before: Seq<ProcessedImage>,
    p: int,
    x: ProcessedImage,
    orig: Seq<ProcessedImage>,
)
    requires
        0 <= p <= before.len(),
        orig.contains(x),
        forall|i: int| 0 <= i < before.len() ==> orig.contains(#[trigger] before[i]),
    ensures
        forall|i: int| 0 <= i < before.len() + 1 ==> orig.contains(#[trigger] before.insert(p, x)[i]),
        forall|n: Seq<char>| #[trigger] names_of(before).contains(n) ==> names_of(before.insert(p, x)).contains(n),
        names_of(before.insert(p, x)).contains(x.file_name@),
{
    let after = before.insert(p, x);
    assert forall|i: int| 0 <= i < before.len() + 1 implies orig.contains(#[trigger] after[i]) by {
        if i < p {
            assert(after[i] == before[i]);
        } else if i > p {
            assert(after[i] == before[i - 1]);
        }
    }
    assert forall|n: Seq<char>| #[trigger] names_of(before).contains(n) implies names_of(
        after,
    ).contains(n) by {
        let i0 = choose|i: int| 0 <= i < names_of(before).len() && names_of(before)[i] == n;
        if i0 < p {
            assert(names_of(after)[i0] == n);
        } else {
            assert(names_of(after)[i0 + 1] == n);
        }
    }
    assert(names_of(after)[p] == x.file_name@);
}

/// The first position in `out` whose name does not come before `name`.
fn find_slot(out: &Vec<ProcessedImage>, name: &String) -> (r: usize)
    ensures
        r <= out@.len(),
        forall|m: int| 0 <= m < r ==> name_lt(#[trigger] out@[m].file_name@, name@),
        r < out@.len() ==> !name_lt(out@[r as int].file_name@, name@),
{
    let xc = chars_of(name.as_str());
    let mut p: usize = 0;
    while p < out.len()
        invariant
            p <= out@.len(),
            xc@ == name@,
            forall|m: int| 0 <= m < p ==> name_lt(#[trigger] out@[m].file_name@, name@),
        decreases out@.len() - p,
    {
        let oc = chars_of(out[p].file_name.as_str());
        if !chars_lt(&oc, &xc) {
            return p;
        }
        p += 1;
    }
    p
}

/// `x` is, among the pages of `s` from position `from` on, the first one
/// with its name.
pub open spec fn first_named_from(s: Seq<ProcessedImage>, from: int, x: ProcessedImage) -> bool {
    exists|k: int|
        #![trigger s[k]]
        from <= k < s.len() && s[k] == x && forall|j: int|
            from <= j < k ==> (#[trigger] s[j]).file_name@ != x.file_name@
}

/// The first page with a given name stays the first when the page before
/// `from` has another name.
proof fn lemma_first_named_extend(s: Seq<ProcessedImage>, from: int, x: ProcessedImage)
    requires
        1 <= from <= s.len(),
        first_named_from(s, from, x),
        s[from - 1].file_name@ != x.file_name@,
    ensures
        first_named_from(s, from - 1, x),
{
    let k = choose|k: int|
        #![trigger s[k]]
        from <= k < s.len() && s[k] == x && forall|j: int|
            from <= j < k ==> (#[trigger] s[j]).file_name@ != x.file_name@;
    assert(s[k] == x);
    assert forall|j: int| from - 1 <= j < k implies (#[trigger] s[j]).file_name@ != x.file_name@ by {
        if j >= from {
        }
    }
}

/// Around the slot that `find_slot` picks for `name` in names strictly in
/// order, no other page has that name.
proof fn lemma_slot_names(out: Seq<ProcessedImage>, p: int, name: Seq<char>)
    requires
        strictly_sorted(out),
        0 <= p <= out.len(),
        forall|m: int| 0 <= m < p ==> name_lt(#[trigger] out[m].file_name@, name),
        p < out.len() ==> !name_lt(out[p].file_name@, name),
    ensures
        forall|i: int| 0 <= i < out.len() && i != p ==> (#[trigger] out[i]).file_name@ != name,
{
    assert forall|i: int| 0 <= i < out.len() && i != p implies (#[trigger] out[i]).file_name@
        != name by {
        lemma_name_lt_total(name, name);
        if i < p {
            assert(name_lt(out[i].file_name@, name));
        } else {
            assert(name_lt(out[p].file_name@, out[i].file_name@));
        }
    }
}

/// The pages in name order with one page kept per name, the first of each
/// name in the input: strictly ordered by name, every page kept is the first
/// input page with its name, and every input's name is kept. (Sorting by
/// name with an unstable sort and then `dedup_by` on names may keep any page
/// of a name; keeping the first is one of those outcomes.)
pub fn sort_and_dedup(images: Vec<ProcessedImage>) -> (r: Vec<ProcessedImage>)
    ensures
        strictly_sorted(r@),
        forall|i: int| 0 <= i < r@.len() ==> first_named_from(images@, 0, #[trigger] r@[i]),
        forall|k: int| 0 <= k < images@.len() ==> names_of(r@).contains(#[trigger] images@[k].file_name@),
{
    let ghost orig = images@;
    let mut rest = images;
    let mut out: Vec<ProcessedImage> = Vec::new();
    while rest.len() > 0
        invariant
            rest@ == orig.take(rest@.len() as int),
            rest@.len() <= orig.len(),
            strictly_sorted(out@),
            forall|i: int|
                0 <= i < out@.len() ==> first_named_from(orig, rest@.len() as int, #[trigger] out@[i]),
            forall|k: int|
                rest@.len() <= k < orig.len() ==> names_of(out@).contains(#[trigger] orig[k].file_name@),
        decreases rest@.len(),
    {
        let ghost n = rest@.len();
        let x = rest.pop().unwrap();
        proof {
            assert(orig[n - 1] == x);
            assert(rest@ =~= orig.take(n - 1));
            assert(orig.contains(x));
            assert(first_named_from(orig, n - 1, x)) by {
                assert(orig[n - 1] == x);
            }
        }
        let p = find_slot(&out, &x.file_name);
        let duplicate = p < out.len() && out[p].file_name == x.file_name;
        proof {
            lemma_slot_names(out@, p as int, x.file_name@);
        }
        if !duplicate {
            let ghost before = out@;
            proof {
                if p < out@.len() {
                    lemma_name_lt_total(out@[p as int].file_name@, x.file_name@);
                }
                lemma_insert_sorted(out@, p as int, x);
                lemma_insert_members(out@, p as int, x, orig);
            }
            out.insert(p, x);
            proof {
                assert forall|i: int| 0 <= i < out@.len() implies first_named_from(
                    orig,
                    n - 1,
                    #[trigger] out@[i],
                ) by {
                    if i < p {
                        assert(out@[i] == before[i]);
                        assert(first_named_from(orig, n as int, before[i]));
                        lemma_first_named_extend(orig, n as int, before[i]);
                    } else if i > p {
                        assert(out@[i] == before[i - 1]);
                        assert(first_named_from(orig, n as int, before[i - 1]));
                        lemma_first_named_extend(orig, n as int, before[i - 1]);
                    }
                }
            }
        } else {
            let ghost before = out@;
            proof {
                assert(names_of(out@)[p as int] == orig[n - 1].file_name@);
            }
            out.set(p, x);
            proof {
                assert(names_of(out@) =~= names_of(before));
                assert forall|i: int, j: int| 0 <= i < j < out@.len() implies name_lt(
                    #[trigger] out@[i].file_name@,
                    #[trigger] out@[j].file_name@,
                ) by {
                    assert(out@[i].file_name@ == before[i].file_name@);
                    assert(out@[j].file_name@ == before[j].file_name@);
                }
                assert forall|i: int| 0 <= i < out@.len() implies first_named_from(
                    orig,
                    n - 1,
                    #[trigger] out@[i],
                ) by {
                    if i != p {
                        assert(out@[i] == before[i]);
                        assert(first_named_from(orig, n as int, before[i]));
                        lemma_first_named_extend(orig, n as int, before[i]);
                    }
                }
                assert forall|k: int| n - 1 <= k < orig.len() implies names_of(out@).contains(
                    #[trigger] orig[k].file_name@,
                ) by {
                    if k == n - 1 {
                        assert(names_of(out@)[p as int] == orig[k].file_name@);
                    } else {
                        assert(names_of(before).contains(orig[k].file_name@));
                    }
                }
            }
        }
    }
    out
}

/// Decimal digits hold no '.'.
proof fn lemma_decimal_has_no_dot(n: nat)
    ensures
        forall|k: int| 0 <= k < decimal(n).len() ==> #[trigger] decimal(n)[k] != '.',
    decreases n,
{
    if n >= 10 {
        lemma_decimal_has_no_dot(n / 10);
        assert forall|k: int| 0 <= k < decimal(n).len() implies #[trigger] decimal(n)[k] != '.' by {
            if k < decimal(n / 10).len() {
                assert(decimal(n)[k] == decimal(n / 10)[k]);
            } else {
                assert(decimal(n)[k] == ((n % 10) + 48) as char);
                assert(((n % 10) + 48) as char != '.');
            }
        }
    } else {
        assert(decimal(n)[0] == (n + 48) as char);
        assert((n + 48) as char != '.');
    }
}

/// The converted file is named by the input's stem with the output format's
/// extension: splitting its name gives back exactly that stem and extension.
pub proof fn output_name_keeps_stem(input: Seq<char>, format: OutputFormat)
    requires
        path_stem(input) matches Some(stem) && stem.len() > 0,
    ensures
        stem_of(output_file_name(input, format)) == path_stem(input)->0,
        extension_of(output_file_name(input, format)) == Some(output_extension(format)),
{
    joined_name_splits_back(path_stem(input)->0, output_extension(format));
}

/// A device page's name carries the format's extension, after the source
/// entry's stem, '_' and the page number.
pub proof fn page_name_has_format_extension(source: Seq<char>, index: nat, format: ImageFormat)
    ensures
        extension_of(page_file_name(source, index, format)) == Some(format_extension(format)),
        stem_of(page_file_name(source, index, format)) == stem_of(source) + "_"@ + decimal(
            index + 1,
        ),
{
    reveal_strlit("_");
    lemma_decimal_has_no_dot(index + 1);
    let stem = stem_of(source) + "_"@ + decimal(index + 1);
    assert(stem.len() > 0);
    assert(page_file_name(source, index, format) == stem + "."@ + format_extension(format));
    joined_name_splits_back(stem, format_extension(format));
}

} // verus!
