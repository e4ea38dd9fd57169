//! Command-line input rules: the spatial-vertex profile syntax and the
//! derivation of the configured counts from the vertex options.

use crate::text::{decimal, owned, push_decimal};
use crate::triangulation::builders::{checked_profile_total, profile_total};
use vstd::prelude::*;
use vstd::std_specs::iter::IteratorSpec;
use vstd::string::*;

verus! {

/// `c` is white space in Unicode's sense (Rust's `char::is_whitespace`).
pub open spec fn is_space(c: char) -> bool {
    let u = c as u32;
    ||| 0x9 <= u <= 0xD
    ||| u == 0x20
    ||| u == 0x85
    ||| u == 0xA0
    ||| u == 0x1680
    ||| 0x2000 <= u <= 0x200A
    ||| u == 0x2028
    ||| u == 0x2029
    ||| u == 0x202F
    ||| u == 0x205F
    ||| u == 0x3000
}

fn space(c: char) -> (b: bool)
    ensures
        b == is_space(c),
{
    let u = c as u32;
    (0x9 <= u && u <= 0xD) || u == 0x20 || u == 0x85 || u == 0xA0 || u == 0x1680 || (0x2000 <= u && u <= 0x200A)
        || u == 0x2028 || u == 0x2029 || u == 0x202F || u == 0x205F || u == 0x3000
}

/// The pieces of `s` between occurrences of `sep`, in order, empty ones
/// included; always at least one.
pub open spec fn pieces(s: Seq<char>, sep: char) -> Seq<Seq<char>>
    decreases s.len(),
{
    if s.len() == 0 {
        seq![Seq::empty()]
    } else {
        let prev = pieces(s.drop_last(), sep);
        if s.last() == sep {
            prev.push(Seq::empty())
        } else {
            prev.update(prev.len() - 1, prev.last().push(s.last()))
        }
    }
}

/// Index of the first character of `s[from..to]` that is not white space
/// (`to` when all are).
pub open spec fn skip_space(s: Seq<char>, from: int, to: int) -> int
    decreases to - from,
{
    if from >= to {
        to
    } else if is_space(s[from]) {
        skip_space(s, from + 1, to)
    } else {
        from
    }
}

/// One past the last character of `s[from..to]` that is not white space
/// (`from` when all are).
pub open spec fn trim_back(s: Seq<char>, from: int, to: int) -> int
    decreases to - from,
{
    if to <= from {
        from
    } else if is_space(s[to - 1]) {
        trim_back(s, from, to - 1)
    } else {
        to
    }
}

/// `s` without leading and trailing white space.
pub open spec fn trimmed(s: Seq<char>) -> Seq<char> {
    let a = skip_space(s, 0, s.len() as int);
    s.subrange(a, trim_back(s, a, s.len() as int))
}

/// Why text is not a `u32`, in the words of Rust's integer parser.
#[derive(Debug, Clone, Copy, PartialEq, Eq)]
pub enum IntegerIssue {
    InvalidDigit,
    PosOverflow,
}

/// The text Rust gives an integer parse failure.
pub open spec fn integer_issue_text(issue: IntegerIssue) -> Seq<char> {
    match issue {
        IntegerIssue::InvalidDigit => "invalid digit found in string"@,
        IntegerIssue::PosOverflow => "number too large to fit in target type"@,
    }
}

/// Reading the first `k` digits of `d` from the left: the first character
/// that is not an ASCII digit, or the first digit at which the value leaves
/// `u32`, fails.
pub open spec fn read_digits(d: Seq<char>, k: int) -> Result<int, IntegerIssue>
    decreases k,
{
    if k <= 0 {
        Ok(0)
    } else {
        match read_digits(d, k - 1) {
            Err(e) => Err(e),
            Ok(v) => {
                let c = d[k - 1] as u32;
                if !('0' as u32 <= c <= '9' as u32) {
                    Err(IntegerIssue::InvalidDigit)
                } else if v * 10 + (c - '0' as u32) > u32::MAX {
                    Err(IntegerIssue::PosOverflow)
                } else {
                    Ok(v * 10 + (c - '0' as u32))
                }
            },
        }
    }
}

/// Rust's `u32` parse of non-empty text: an optional leading `+`, then at
/// least one digit.
pub open spec fn parse_u32(t: Seq<char>) -> Result<u32, IntegerIssue> {
    let d = if t.len() > 0 && t[0] == '+' { t.drop_first() } else { t };
    if d.len() == 0 {
        Err(IntegerIssue::InvalidDigit)
    } else {
        match read_digits(d, d.len() as int) {
            Ok(v) => Ok(v as u32),
            Err(e) => Err(e),
        }
    }
}

/// What is wrong with one profile entry.
#[derive(Debug, Clone, Copy, PartialEq, Eq)]
pub enum EntryIssue {
    Empty,
    NotInteger(IntegerIssue),
    Zero,
}

/// The value of one profile entry, or what is wrong with it.
pub open spec fn entry_value(entry: Seq<char>) -> Result<u32, EntryIssue> {
    let t = trimmed(entry);
    if t.len() == 0 {
        Err(EntryIssue::Empty)
    } else {
        match parse_u32(t) {
            Err(e) => Err(EntryIssue::NotInteger(e)),
            Ok(v) => if v == 0 {
                Err(EntryIssue::Zero)
            } else {
                Ok(v)
            },
        }
    }
}

/// The values of the first `k` entries, or the first bad entry.
pub open spec fn entry_values(entries: Seq<Seq<char>>, k: int) -> Result<Seq<u32>, (int, EntryIssue)>
    decreases k,
{
    if k <= 0 {
        Ok(Seq::empty())
    } else {
        match entry_values(entries, k - 1) {
            Err(e) => Err(e),
            Ok(vs) => match entry_value(entries[k - 1]) {
                Ok(v) => Ok(vs.push(v)),
                Err(issue) => Err((k - 1, issue)),
            },
        }
    }
}

/// The message for a bad entry, numbered from 1.
pub open spec fn entry_message(number: nat, text: Seq<char>, issue: EntryIssue) -> Seq<char> {
    match issue {
        EntryIssue::Empty => "spatial-vertex profile entry "@ + decimal(number) + " is empty"@,
        EntryIssue::NotInteger(e) => "spatial-vertex profile entry "@ + decimal(number) + " ("@ + text
            + ") is not a positive integer: "@ + integer_issue_text(e),
        EntryIssue::Zero => "spatial-vertex profile entry "@ + decimal(number) + " must be at least 1"@,
    }
}

/// What parsing a spatial-vertex profile gives.
pub open spec fn profile_parse(raw: Seq<char>) -> Result<Seq<u32>, Seq<char>> {
    let entries = pieces(raw, ',');
    match entry_values(entries, entries.len() as int) {
        Ok(p) => if p.len() == 0 {
            Err("spatial-vertex profile must contain at least one entry"@)
        } else {
            Ok(p)
        },
        Err((i, issue)) => Err(entry_message((i + 1) as nat, trimmed(entries[i]), issue)),
    }
}

/// The characters of `raw`.
pub fn chars_of(raw: &str) -> (v: Vec<char>)
    ensures
        v@ == raw@,
{
    broadcast use vstd::string::group_string_axioms;
    let mut v: Vec<char> = Vec::new();
    let mut it = raw.chars();
    loop
        invariant
            it.obeys_prophetic_iter_laws(),
            v@ + it.remaining() == raw@,
            it.decrease() is Some,
        ensures
            v@ == raw@,
        decreases it.decrease()->0,
    {
        let next = it.next();
        match next {
            Some(c) => {
                v.push(c);
            },
            None => {
                assert(it.remaining().len() == 0);
                assert(v@ =~= raw@);
                break;
            },
        }
    }
    v
}

proof fn lemma_entry_values_stable(entries: Seq<Seq<char>>, k: int, m: int)
    requires
        0 <= k <= m,
        entry_values(entries, k) is Err,
    ensures
        entry_values(entries, m) == entry_values(entries, k),
    decreases m - k,
{
    if m > k {
        lemma_entry_values_stable(entries, k, m - 1);
    }
}

proof fn lemma_entry_values_positive(entries: Seq<Seq<char>>, k: int)
    requires
        0 <= k,
        entry_values(entries, k) is Ok,
    ensures
        entry_values(entries, k)->Ok_0.len() == k,
        forall|i: int| 0 <= i < k ==> #[trigger] entry_values(entries, k)->Ok_0[i] >= 1,
    decreases k,
{
    if k > 0 {
        lemma_entry_values_positive(entries, k - 1);
    }
}

/// A parsed profile has one entry per comma-separated piece of the text, at
/// least one, and every entry is at least 1.
pub proof fn lemma_parsed_profile_positive(raw: Seq<char>)
    requires
        profile_parse(raw) is Ok,
    ensures
        profile_parse(raw)->Ok_0.len() == pieces(raw, ',').len(),
        profile_parse(raw)->Ok_0.len() >= 1,
        forall|i: int| 0 <= i < profile_parse(raw)->Ok_0.len() ==> #[trigger] profile_parse(raw)->Ok_0[i] >= 1,
{
    let entries = pieces(raw, ',');
    lemma_entry_values_positive(entries, entries.len() as int);
}

/// Splits `chars` at every `sep` into the bounds of the pieces between.
pub fn piece_bounds(chars: &Vec<char>, sep: char) -> (bounds: Vec<(usize, usize)>)
    ensures
        bounds@.len() == pieces(chars@, sep).len(),
        forall|j: int|
            #![trigger bounds@[j]]
            0 <= j < bounds@.len() ==> bounds@[j].0 <= bounds@[j].1 && bounds@[j].1 <= chars@.len() && pieces(chars@, sep)[j]
                == chars@.subrange(bounds@[j].0 as int, bounds@[j].1 as int),
{
    let mut bounds: Vec<(usize, usize)> = Vec::new();
    let mut start: usize = 0;
    let mut i: usize = 0;
    while i < chars.len()
        invariant
            start <= i <= chars@.len(),
            bounds@.len() + 1 == pieces(chars@.take(i as int), sep).len(),
            forall|j: int|
                #![trigger bounds@[j]]
                0 <= j < bounds@.len() ==> bounds@[j].0 <= bounds@[j].1 && bounds@[j].1 <= i && pieces(chars@.take(i as int), sep)[j]
                    == chars@.subrange(bounds@[j].0 as int, bounds@[j].1 as int),
            pieces(chars@.take(i as int), sep).last() == chars@.subrange(start as int, i as int),
        decreases chars@.len() - i,
    {
        let ghost prev = pieces(chars@.take(i as int), sep);
        let ghost old_bounds = bounds@;
        assert(chars@.take(i + 1).drop_last() == chars@.take(i as int));
        if chars[i] == sep {
            bounds.push((start, i));
            start = i + 1;
        }
        i = i + 1;
        proof {
            let cur = pieces(chars@.take(i as int), sep);
            if chars@[i - 1] == sep {
                assert(cur == prev.push(Seq::<char>::empty()));
                assert forall|j: int| #![trigger bounds@[j]] 0 <= j < bounds@.len() implies bounds@[j].0 <= bounds@[j].1 && bounds@[j].1 <= i && pieces(
                    chars@.take(i as int),
                    sep,
                )[j] == chars@.subrange(bounds@[j].0 as int, bounds@[j].1 as int) by {
                    if j < old_bounds.len() {
                        assert(bounds@[j] == old_bounds[j]);
                        assert(cur[j] == prev[j]);
                    } else {
                        assert(cur[j] == prev.last());
                    }
                };
                assert(chars@.subrange(start as int, i as int) =~= cur.last());
            } else {
                assert(cur == prev.update(prev.len() - 1, prev.last().push(chars@[i - 1])));
                assert forall|j: int| #![trigger bounds@[j]] 0 <= j < bounds@.len() implies bounds@[j].0 <= bounds@[j].1 && bounds@[j].1 <= i && pieces(
                    chars@.take(i as int),
                    sep,
                )[j] == chars@.subrange(bounds@[j].0 as int, bounds@[j].1 as int) by {
                    assert(cur[j] == prev[j]);
                };
                assert(chars@.subrange(start as int, i as int) =~= chars@.subrange(start as int, i - 1).push(
                    chars@[i - 1],
                ));
            }
        }
    }
    assert(chars@.take(i as int) == chars@);
    bounds.push((start, i));
    bounds
}

/// Rust's integer parse of `f[p..b]` (digits only).
fn read_u32_digits(f: &Vec<char>, p: usize, b: usize) -> (result: Result<u32, IntegerIssue>)
    requires
        p <= b <= f@.len(),
    ensures
        match read_digits(f@.subrange(p as int, b as int), b - p) {
            Ok(v) => result == Ok::<u32, IntegerIssue>(v as u32) && v <= u32::MAX,
            Err(e) => result == Err::<u32, IntegerIssue>(e),
        },
{
    let ghost d = f@.subrange(p as int, b as int);
    let mut acc: u64 = 0;
    let mut k: usize = p;
    while k < b
        invariant
            p <= k <= b <= f@.len(),
            d == f@.subrange(p as int, b as int),
            read_digits(d, k - p) == Ok::<int, IntegerIssue>(acc as int),
            acc <= u32::MAX,
        decreases b - k,
    {
        let c = f[k] as u32;
        assert(d[k - p] == f@[k as int]);
        if !('0' as u32 <= c && c <= '9' as u32) {
            proof { lemma_read_digits_stable(d, k - p + 1, b - p); }
            return Err(IntegerIssue::InvalidDigit);
        }
        let next = acc * 10 + (c - '0' as u32) as u64;
        if next > u32::MAX as u64 {
            proof { lemma_read_digits_stable(d, k - p + 1, b - p); }
            return Err(IntegerIssue::PosOverflow);
        }
        acc = next;
        k = k + 1;
    }
    Ok(acc as u32)
}

proof fn lemma_read_digits_stable(d: Seq<char>, k: int, m: int)
    requires
        0 <= k <= m,
        read_digits(d, k) is Err,
    ensures
        read_digits(d, m) == read_digits(d, k),
    decreases m - k,
{
    if m > k {
        lemma_read_digits_stable(d, k, m - 1);
    }
}

/// Skips white space forward from `from` up to `to`.
fn skip_spaces(f: &Vec<char>, from: usize, to: usize) -> (a: usize)
    requires
        from <= to <= f@.len(),
    ensures
        a == skip_space(f@, from as int, to as int),
        from <= a <= to,
    decreases to - from,
{
    if from >= to {
        to
    } else if space(f[from]) {
        skip_spaces(f, from + 1, to)
    } else {
        from
    }
}

/// Trims white space backward from `to` down to `from`.
fn trim_spaces_back(f: &Vec<char>, from: usize, to: usize) -> (b: usize)
    requires
        from <= to <= f@.len(),
    ensures
        b == trim_back(f@, from as int, to as int),
        from <= b <= to,
    decreases to - from,
{
    if to <= from {
        from
    } else if space(f[to - 1]) {
        trim_spaces_back(f, from, to - 1)
    } else {
        to
    }
}

fn copy_chars(chars: &Vec<char>, from: usize, to: usize) -> (f: Vec<char>)
    requires
        from <= to <= chars@.len(),
    ensures
        f@ == chars@.subrange(from as int, to as int),
{
    let mut f: Vec<char> = Vec::new();
    let mut k: usize = from;
    while k < to
        invariant
            from <= k <= to <= chars@.len(),
            f@ == chars@.subrange(from as int, k as int),
        decreases to - k,
    {
        f.push(chars[k]);
        k = k + 1;
        assert(f@ =~= chars@.subrange(from as int, k as int));
    }
    f
}

/// The value of the entry `chars[from..to]`, or the message for it, numbered
/// `number`.
fn entry_result(raw: &str, chars: &Vec<char>, from: usize, to: usize, number: usize) -> (result: Result<u32, String>)
    requires
        chars@ == raw@,
        from <= to <= chars@.len(),
    ensures
        match entry_value(chars@.subrange(from as int, to as int)) {
            Ok(v) => result == Ok::<u32, String>(v),
            Err(issue) => result is Err && result->Err_0@ == entry_message(
                number as nat,
                trimmed(chars@.subrange(from as int, to as int)),
                issue,
            ),
        },
{
    proof {
        reveal_strlit("spatial-vertex profile entry ");
        reveal_strlit(" is empty");
        reveal_strlit(" (");
        reveal_strlit(") is not a positive integer: ");
        reveal_strlit(" must be at least 1");
        reveal_strlit("invalid digit found in string");
        reveal_strlit("number too large to fit in target type");
    }
    let f = copy_chars(chars, from, to);
    let a = skip_spaces(&f, 0, f.len());
    let b = trim_spaces_back(&f, a, f.len());
    let ghost t = f@.subrange(a as int, b as int);
    assert(t == trimmed(f@));
    if a == b {
        let mut message = owned("spatial-vertex profile entry ");
        push_decimal(&mut message, number as u64);
        message.append(" is empty");
        return Err(message);
    }
    let p = if f[a] == '+' { a + 1 } else { a };
    assert(f@.subrange(p as int, b as int) == (if t[0] == '+' { t.drop_first() } else { t }));
    let parsed = if p == b {
        Err(IntegerIssue::InvalidDigit)
    } else {
        read_u32_digits(&f, p, b)
    };
    match parsed {
        Err(issue) => {
            let text = raw.substring_char(from + a, from + b);
            assert(text@ =~= t);
            let mut message = owned("spatial-vertex profile entry ");
            push_decimal(&mut message, number as u64);
            message.append(" (");
            message.append(text);
            message.append(") is not a positive integer: ");
            match issue {
                IntegerIssue::InvalidDigit => message.append("invalid digit found in string"),
                IntegerIssue::PosOverflow => message.append("number too large to fit in target type"),
            }
            Err(message)
        },
        Ok(v) => {
            if v == 0 {
                let mut message = owned("spatial-vertex profile entry ");
                push_decimal(&mut message, number as u64);
                message.append(" must be at least 1");
                return Err(message);
            }
            Ok(v)
        },
    }
}

/// Parses a comma-separated spatial-vertex profile such as `8, 10,7,9`.
///
/// Each entry, stripped of surrounding white space, must be a positive
/// integer in Rust's `u32` syntax (digits, optionally after `+`).
///
/// # Errors
///
/// A message naming the first bad entry, numbered from 1, as
/// [`profile_parse`] states.
pub fn parse_spatial_vertex_profile(raw: &str) -> (result: Result<Vec<u32>, String>)
    ensures
        match profile_parse(raw@) {
            Ok(p) => result matches Ok(v) && v@ == p,
            Err(m) => result matches Err(e) && e@ == m,
        },
{
    let chars = chars_of(raw);
    let bounds = piece_bounds(&chars, ',');
    let mut profile: Vec<u32> = Vec::new();
    let mut j: usize = 0;
    while j < bounds.len()
        invariant
            chars@ == raw@,
            bounds@.len() == pieces(chars@, ',').len(),
            forall|q: int|
                #![trigger bounds@[q]]
                0 <= q < bounds@.len() ==> bounds@[q].0 <= bounds@[q].1 && bounds@[q].1 <= chars@.len() && pieces(chars@, ',')[q]
                    == chars@.subrange(bounds@[q].0 as int, bounds@[q].1 as int),
            j <= bounds@.len(),
            entry_values(pieces(chars@, ','), j as int) == Ok::<Seq<u32>, (int, EntryIssue)>(profile@),
        decreases bounds@.len() - j,
    {
        let (from, to) = bounds[j];
        assert(pieces(chars@, ',')[j as int] == chars@.subrange(from as int, to as int));
        match entry_result(raw, &chars, from, to, j + 1) {
            Ok(v) => {
                profile.push(v);
            },
            Err(message) => {
                proof { lemma_entry_values_stable(pieces(chars@, ','), j + 1, pieces(chars@, ',').len() as int); }
                return Err(message);
            },
        }
        j = j + 1;
    }
    if profile.len() == 0 {
        proof { reveal_strlit("spatial-vertex profile must contain at least one entry"); }
        return Err(owned("spatial-vertex profile must contain at least one entry"));
    }
    Ok(profile)
}

/// The vertex-count options of the command line; exactly one of
/// `vertices`, `vertices_per_slice` and `spatial_vertex_profile` is given,
/// and `timeslices` is given unless a profile is.
#[derive(Debug, Clone, PartialEq, Eq)]
pub struct VertexOptions {
    pub vertices: Option<u32>,
    pub vertices_per_slice: Option<u32>,
    pub timeslices: Option<u32>,
    pub spatial_vertex_profile: Option<String>,
}

/// The configured counts the vertex options give: total vertices, time
/// slices and the explicit profile, if any; or the message for why they
/// cannot be derived.
pub open spec fn option_counts(o: VertexOptions) -> Result<(u32, u32, Option<Seq<u32>>), Seq<char>> {
    match o.spatial_vertex_profile {
        Some(raw) => match profile_parse(raw@) {
            Err(m) => Err("invalid --spatial-vertex-profile: "@ + m),
            Ok(p) => if p.len() > u32::MAX {
                Err(
                    "--spatial-vertex-profile has too many entries for u32 timeslices: out of range integral type conversion attempted"@,
                )
            } else if o.timeslices is Some && o.timeslices->0 != p.len() {
                Err(
                    "--timeslices ("@ + decimal(o.timeslices->0 as nat)
                        + ") must match --spatial-vertex-profile entry count ("@ + decimal(p.len()) + ")"@,
                )
            } else if profile_total(p) > u32::MAX {
                Err("--spatial-vertex-profile total vertices exceed u32::MAX"@)
            } else {
                Ok((profile_total(p) as u32, p.len() as u32, Some(p)))
            },
        },
        None => {
            let t = o.timeslices->0;
            match o.vertices {
                Some(v) => Ok((v, t, None)),
                None => {
                    let n = o.vertices_per_slice->0;
                    if n * t > u32::MAX {
                        Err(
                            "--vertices-per-slice ("@ + decimal(n as nat) + ") × --timeslices ("@ + decimal(t as nat)
                                + ") exceeds u32::MAX"@,
                        )
                    } else {
                        Ok(((n * t) as u32, t, None))
                    }
                },
            }
        },
    }
}


/// Derives the configured counts from the vertex options.
///
/// With a profile, the slice count is its length (and must equal any given
/// `timeslices`) and the vertex count its sum; otherwise the vertex count is
/// `vertices`, or `vertices_per_slice × timeslices`.
///
/// # Errors
///
/// The message [`option_counts`] gives: a bad profile, a profile whose
/// length or sum does not fit in `u32` or whose length differs from
/// `timeslices`, or a product that does not fit in `u32`.
pub fn vertex_counts(options: &VertexOptions) -> (result: Result<(u32, u32, Option<Vec<u32>>), String>)
    requires
        options.spatial_vertex_profile is None ==> options.timeslices is Some && (options.vertices is Some
            || options.vertices_per_slice is Some),
    ensures
        match option_counts(*options) {
            Ok((v, t, p)) => result matches Ok(r) && r.0 == v && r.1 == t && match (r.2, p) {
                (Some(x), Some(y)) => x@ == y,
                (None, None) => true,
                _ => false,
            },
            Err(m) => result matches Err(e) && e@ == m,
        },
{
    proof {
        reveal_strlit("invalid --spatial-vertex-profile: ");
        reveal_strlit(
            "--spatial-vertex-profile has too many entries for u32 timeslices: out of range integral type conversion attempted",
        );
        reveal_strlit("--timeslices (");
        reveal_strlit(") must match --spatial-vertex-profile entry count (");
        reveal_strlit(")");
        reveal_strlit("--spatial-vertex-profile total vertices exceed u32::MAX");
        reveal_strlit("--vertices-per-slice (");
        reveal_strlit(") × --timeslices (");
        reveal_strlit(") exceeds u32::MAX");
    }
    match &options.spatial_vertex_profile {
        Some(raw) => {
            let profile = match parse_spatial_vertex_profile(raw.as_str()) {
                Ok(p) => p,
                Err(err) => {
                    let mut message = owned("invalid --spatial-vertex-profile: ");
                    message.append(err.as_str());
                    return Err(message);
                },
            };
            if profile.len() > u32::MAX as usize {
                return Err(owned(
                    "--spatial-vertex-profile has too many entries for u32 timeslices: out of range integral type conversion attempted",
                ));
            }
            let profile_slices = profile.len() as u32;
            let timeslices = match options.timeslices {
                Some(t) => t,
                None => profile_slices,
            };
            if timeslices != profile_slices {
                let mut message = owned("--timeslices (");
                push_decimal(&mut message, timeslices as u64);
                message.append(") must match --spatial-vertex-profile entry count (");
                push_decimal(&mut message, profile_slices as u64);
                message.append(")");
                return Err(message);
            }
            let vertices = match checked_profile_total(&profile) {
                Some(v) => v,
                None => return Err(owned("--spatial-vertex-profile total vertices exceed u32::MAX")),
            };
            Ok((vertices, timeslices, Some(profile)))
        },
        None => {
            let timeslices = options.timeslices.unwrap();
            let vertices = match options.vertices {
                Some(v) => v,
                None => {
                    let vertices_per_slice = options.vertices_per_slice.unwrap();
                    match vertices_per_slice.checked_mul(timeslices) {
                        Some(v) => v,
                        None => {
                            let mut message = owned("--vertices-per-slice (");
                            push_decimal(&mut message, vertices_per_slice as u64);
                            message.append(") × --timeslices (");
                            push_decimal(&mut message, timeslices as u64);
                            message.append(") exceeds u32::MAX");
                            return Err(message);
                        },
                    }
                },
            };
            Ok((vertices, timeslices, None))
        },
    }
}

} // verus!
