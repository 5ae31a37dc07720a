use vstd::prelude::*;

verus! {

/// Whether `c` is white space, as `char::is_whitespace` decides it (the
/// Unicode `White_Space` property).
pub open spec fn is_ws(c: char) -> bool {
    let n = c as u32;
    (0x9 <= n && n <= 0xd) || n == 0x20 || n == 0x85 || n == 0xa0 || n == 0x1680 || (0x2000 <= n
        && n <= 0x200a) || n == 0x2028 || n == 0x2029 || n == 0x202f || n == 0x205f || n == 0x3000
}

/// The characters removed by one trimming pass: double quotes when `quote`
/// holds, white space otherwise.
pub open spec fn trimmed_char(c: char, quote: bool) -> bool {
    if quote {
        c == '"'
    } else {
        is_ws(c)
    }
}

/// `s` without its leading trimmed characters.
pub open spec fn trim_start_by(s: Seq<char>, quote: bool) -> Seq<char>
    decreases s.len(),
{
    if s.len() > 0 && trimmed_char(s[0], quote) {
        trim_start_by(s.drop_first(), quote)
    } else {
        s
    }
}

/// `s` without its trailing trimmed characters.
pub open spec fn trim_end_by(s: Seq<char>, quote: bool) -> Seq<char>
    decreases s.len(),
{
    if s.len() > 0 && trimmed_char(s.last(), quote) {
        trim_end_by(s.drop_last(), quote)
    } else {
        s
    }
}

/// `s` without its leading and trailing trimmed characters.
pub open spec fn trim_by(s: Seq<char>, quote: bool) -> Seq<char> {
    trim_end_by(trim_start_by(s, quote), quote)
}

/// The pieces of `s` between occurrences of `sep`, empty ones included.
pub open spec fn split_on(s: Seq<char>, sep: char) -> Seq<Seq<char>>
    decreases s.len(),
{
    if s.len() == 0 {
        seq![Seq::empty()]
    } else {
        let front = split_on(s.drop_last(), sep);
        if s.last() == sep {
            front.push(Seq::empty())
        } else {
            front.update(front.len() - 1, front.last().push(s.last()))
        }
    }
}

/// The non-empty strings of `ps`, in order.
pub open spec fn drop_empty(ps: Seq<Seq<char>>) -> Seq<Seq<char>>
    decreases ps.len(),
{
    if ps.len() == 0 {
        ps
    } else {
        let front = drop_empty(ps.drop_last());
        if ps.last().len() > 0 {
            front.push(ps.last())
        } else {
            front
        }
    }
}

/// The non-empty pieces of `s` between occurrences of `sep`.
pub open spec fn fields(s: Seq<char>, sep: char) -> Seq<Seq<char>> {
    drop_empty(split_on(s, sep))
}

/// A field of `docker ps` split into items: surrounding double quotes and
/// white space removed, then the non-empty pieces between separators.
pub open spec fn items_of(s: Seq<char>, sep: char) -> Seq<Seq<char>> {
    fields(trim_by(trim_by(s, true), false), sep)
}

fn is_trimmed(c: char, quote: bool) -> (r: bool)
    ensures
        r == trimmed_char(c, quote),
{
    if quote {
        c == '"'
    } else {
        let n = c as u32;
        (0x9 <= n && n <= 0xd) || n == 0x20 || n == 0x85 || n == 0xa0 || n == 0x1680 || (0x2000
            <= n && n <= 0x200a) || n == 0x2028 || n == 0x2029 || n == 0x202f || n == 0x205f || n
            == 0x3000
    }
}

/// Removes the leading and trailing double quotes (`quote`) or white space.
fn trim_str(s: &str, quote: bool) -> (r: &str)
    ensures
        r@ == trim_by(s@, quote),
{
    let n = s.unicode_len();
    let mut i: usize = 0;
    assert(s@.subrange(0, n as int) =~= s@);
    while i < n && is_trimmed(s.get_char(i), quote)
        invariant
            n == s@.len(),
            i <= n,
            trim_start_by(s@, quote) == trim_start_by(s@.subrange(i as int, n as int), quote),
        decreases n - i,
    {
        proof {
            let t = s@.subrange(i as int, n as int);
            assert(t.drop_first() =~= s@.subrange(i + 1, n as int));
        }
        i = i + 1;
    }
    let ghost front = s@.subrange(i as int, n as int);
    assert(trim_start_by(front, quote) == front);
    let mut j: usize = n;
    while j > i && is_trimmed(s.get_char(j - 1), quote)
        invariant
            n == s@.len(),
            i <= j <= n,
            front == s@.subrange(i as int, n as int),
            trim_end_by(front, quote) == trim_end_by(s@.subrange(i as int, j as int), quote),
        decreases j,
    {
        proof {
            let t = s@.subrange(i as int, j as int);
            assert(t.drop_last() =~= s@.subrange(i as int, j - 1));
        }
        j = j - 1;
    }
    s.substring_char(i, j)
}

/// Splits `s` at each `sep` and keeps the non-empty pieces, in order.
fn split_fields(s: &str, sep: char) -> (r: Vec<String>)
    ensures
        r.deep_view() == fields(s@, sep),
{
    let n = s.unicode_len();
    let mut out: Vec<String> = Vec::new();
    let mut start: usize = 0;
    let mut i: usize = 0;
    let ghost done: Seq<Seq<char>> = Seq::empty();
    assert(s@.take(0) =~= Seq::<char>::empty());
    assert(done.push(s@.subrange(0, 0)) =~= seq![Seq::<char>::empty()]);
    while i < n
        invariant
            n == s@.len(),
            start <= i <= n,
            split_on(s@.take(i as int), sep) == done.push(s@.subrange(start as int, i as int)),
            out.deep_view() == drop_empty(done),
        decreases n - i,
    {
        let c = s.get_char(i);
        let ghost cur = s@.subrange(start as int, i as int);
        proof {
            assert(s@.take(i + 1).drop_last() =~= s@.take(i as int));
            assert(s@.take(i + 1).last() == c);
        }
        if c == sep {
            if start < i {
                let piece = String::from_str(s.substring_char(start, i));
                let ghost prev = out.deep_view();
                out.push(piece);
                proof {
                    assert(out.deep_view() =~= prev.push(cur));
                }
            }
            proof {
                assert(done.push(cur).drop_last() =~= done);
                done = done.push(cur);
                assert(s@.subrange(i + 1, i + 1) =~= Seq::<char>::empty());
            }
            start = i + 1;
        } else {
            proof {
                let front = done.push(cur);
                assert(cur.push(c) =~= s@.subrange(start as int, i + 1));
                assert(front.update(front.len() - 1, cur.push(c)) =~= done.push(
                    s@.subrange(start as int, i + 1),
                ));
            }
        }
        i = i + 1;
    }
    proof {
        let cur = s@.subrange(start as int, n as int);
        assert(s@.take(n as int) =~= s@);
        assert(done.push(cur).drop_last() =~= done);
    }
    if start < n {
        let piece = String::from_str(s.substring_char(start, n));
        let ghost prev = out.deep_view();
        out.push(piece);
        proof {
            assert(out.deep_view() =~= prev.push(s@.subrange(start as int, n as int)));
        }
    }
    out
}

/// Splits a field of `docker ps` into its items: the field without
/// surrounding double quotes and white space, cut at each `sep`, empty
/// pieces dropped.
pub fn trim_split(input: &str, sep: char) -> (r: Vec<String>)
    ensures
        r.deep_view() == items_of(input@, sep),
{
    let unquoted = trim_str(input, true);
    let trimmed = trim_str(unquoted, false);
    split_fields(trimmed, sep)
}

/// One line of `docker ps --format {{json .}}`, field by field.
pub struct RawPsEntry {
    pub command: String,
    pub mounts: String,
    pub names: String,
    pub id: String,
    pub image: String,
    pub labels: String,
}

/// A container as `docker ps` lists it.
#[derive(Debug, Clone)]
pub struct PsEntry {
    /// The command, split at spaces.
    pub command: Vec<String>,
    /// The mounts, split at commas.
    pub mounts: Vec<String>,
    pub name: String,
    pub id: String,
    pub image: String,
    /// The labels (`key=value`), split at commas.
    pub labels: Vec<String>,
}

impl PsEntry {
    /// Splits the list-valued fields of a raw entry into their items.
    pub fn from_raw(raw: RawPsEntry) -> (r: Self)
        ensures
            r.name == raw.names,
            r.id == raw.id,
            r.image == raw.image,
            r.mounts.deep_view() == items_of(raw.mounts@, ','),
            r.labels.deep_view() == items_of(raw.labels@, ','),
            r.command.deep_view() == items_of(raw.command@, ' '),
    {
        let mounts = trim_split(raw.mounts.as_str(), ',');
        let labels = trim_split(raw.labels.as_str(), ',');
        let command = trim_split(raw.command.as_str(), ' ');
        PsEntry { name: raw.names, id: raw.id, image: raw.image, mounts, labels, command }
    }
}

} // verus!
