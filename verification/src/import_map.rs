//! The import map file: one `name = action` mapping per line, telling the
//! compiler what to do with a WebAssembly import (`trap` or `nop`). Blank
//! lines and lines starting with `#` are skipped.
use vstd::prelude::*;
use vstd::std_specs::iter::IteratorSpec;
use vstd::string::*;

verus! {

/// What the compiler does with an import.
#[derive(Debug, Clone, Copy, PartialEq, Eq, Structural)]
pub enum ImportAction {
    /// Calls to the import trap.
    Trap,
    /// Calls to the import do nothing.
    Nop,
}

/// Why an import map was refused; lines count from 1.
#[derive(Debug)]
pub enum ImportMapError {
    /// A line is not of the form `name = action`.
    InvalidFormat { line: usize },
    /// A line names an action other than `trap` or `nop`.
    UnknownAction { line: usize, action: String },
}

/// White space as Unicode defines it (the characters `char::is_whitespace` accepts).
pub open spec fn is_ws(c: char) -> bool {
    let n = c as u32;
    (9 <= n <= 13) || n == 32 || n == 0x85 || n == 0xA0 || n == 0x1680 || (0x2000 <= n <= 0x200A)
        || n == 0x2028 || n == 0x2029 || n == 0x202F || n == 0x205F || n == 0x3000
}

/// `s` without leading white space.
pub open spec fn trim_start(s: Seq<char>) -> Seq<char>
    decreases s.len(),
{
    if s.len() > 0 && is_ws(s[0]) {
        trim_start(s.drop_first())
    } else {
        s
    }
}

/// `s` without trailing white space.
pub open spec fn trim_end(s: Seq<char>) -> Seq<char>
    decreases s.len(),
{
    if s.len() > 0 && is_ws(s.last()) {
        trim_end(s.drop_last())
    } else {
        s
    }
}

/// `s` without leading or trailing white space.
pub open spec fn trim(s: Seq<char>) -> Seq<char> {
    trim_end(trim_start(s))
}

/// Index of the first `c` in `s`.
pub open spec fn find_char(s: Seq<char>, c: char) -> Option<int>
    decreases s.len(),
{
    if s.len() == 0 {
        None
    } else if s[0] == c {
        Some(0)
    } else {
        match find_char(s.drop_first(), c) {
            Some(i) => Some(i + 1),
            None => None,
        }
    }
}

/// The lines of `s`: the pieces between newline characters.
pub open spec fn lines_of(s: Seq<char>) -> Seq<Seq<char>>
    decreases s.len(),
{
    match find_char(s, '\n') {
        Some(i) => if 0 <= i < s.len() {
            seq![s.take(i)] + lines_of(s.skip(i + 1))
        } else {
            seq![s]
        },
        None => seq![s],
    }
}

/// What one line of an import map says.
pub enum LineOutcome {
    /// A blank line or a comment.
    Skip,
    /// A mapping of an import name to an action.
    Entry(Seq<char>, ImportAction),
    /// A line without `=`.
    NoEquals,
    /// A line whose action is neither `trap` nor `nop`.
    BadAction(Seq<char>),
}

/// Reading of one line: trimmed, skipped when blank or a comment, else split
/// at the first `=` into a trimmed name and a trimmed action.
pub open spec fn parse_line(line: Seq<char>) -> LineOutcome {
    let t = trim(line);
    if t.len() == 0 || t[0] == '#' {
        LineOutcome::Skip
    } else {
        match find_char(t, '=') {
            Some(i) => {
                let name = trim(t.take(i));
                let action = trim(t.skip(i + 1));
                if action == "trap"@ {
                    LineOutcome::Entry(name, ImportAction::Trap)
                } else if action == "nop"@ {
                    LineOutcome::Entry(name, ImportAction::Nop)
                } else {
                    LineOutcome::BadAction(action)
                }
            },
            None => LineOutcome::NoEquals,
        }
    }
}

/// The entries of the first `k` lines, or the first error among them: the
/// line number (from 1) and, for an unknown action, the action.
pub open spec fn entries_upto(lines: Seq<Seq<char>>, k: int) -> Result<
    Seq<(Seq<char>, ImportAction)>,
    (int, Option<Seq<char>>),
>
    decreases k,
{
    if k <= 0 {
        Ok(Seq::empty())
    } else {
        match entries_upto(lines, k - 1) {
            Err(e) => Err(e),
            Ok(es) => match parse_line(lines[k - 1]) {
                LineOutcome::Skip => Ok(es),
                LineOutcome::Entry(n, a) => Ok(es.push((n, a))),
                LineOutcome::NoEquals => Err((k, None)),
                LineOutcome::BadAction(a) => Err((k, Some(a))),
            },
        }
    }
}

/// The reading of a whole import map text.
pub open spec fn import_map_spec(text: Seq<char>) -> Result<
    Seq<(Seq<char>, ImportAction)>,
    (int, Option<Seq<char>>),
> {
    entries_upto(lines_of(text), lines_of(text).len() as int)
}

fn is_ws_exec(c: char) -> (r: bool)
    ensures
        r == is_ws(c),
{
    let n = c as u32;
    (9 <= n && n <= 13) || n == 32 || n == 0x85 || n == 0xA0 || n == 0x1680 || (0x2000 <= n && n
        <= 0x200A) || n == 0x2028 || n == 0x2029 || n == 0x202F || n == 0x205F || n == 0x3000
}

fn chars_of(s: &str) -> (r: Vec<char>)
    ensures
        r@ == s@,
{
    broadcast use vstd::string::axiom_spec_iter;

    let mut out: Vec<char> = Vec::new();
    for c in it: s.chars()
        invariant
            it.seq() == s@,
            out@ == s@.take(it.index() as int),
    {
        proof {
            assert(s@.take(it.index() + 1) =~= s@.take(it.index() as int).push(c));
        }
        out.push(c);
    }
    proof {
        assert(s@.take(s@.len() as int) =~= s@);
    }
    out
}

proof fn lemma_trim_start(s: Seq<char>, a: int, a2: int, b: int)
    requires
        0 <= a <= a2 <= b <= s.len(),
        forall|k: int| a <= k < a2 ==> is_ws(#[trigger] s[k]),
        a2 == b || !is_ws(s[a2]),
    ensures
        trim_start(s.subrange(a, b)) == s.subrange(a2, b),
    decreases a2 - a,
{
    if a < a2 {
        assert(s.subrange(a, b).drop_first() =~= s.subrange(a + 1, b));
        lemma_trim_start(s, a + 1, a2, b);
    } else {
        if a2 < b {
            assert(s.subrange(a, b)[0] == s[a2]);
        }
    }
}

proof fn lemma_trim_end(s: Seq<char>, a: int, b2: int, b: int)
    requires
        0 <= a <= b2 <= b <= s.len(),
        forall|k: int| b2 <= k < b ==> is_ws(#[trigger] s[k]),
        b2 == a || !is_ws(s[b2 - 1]),
    ensures
        trim_end(s.subrange(a, b)) == s.subrange(a, b2),
    decreases b - b2,
{
    if b2 < b {
        assert(s.subrange(a, b).drop_last() =~= s.subrange(a, b - 1));
        lemma_trim_end(s, a, b2, b - 1);
    } else {
        if a < b2 {
            assert(s.subrange(a, b).last() == s[b2 - 1]);
        }
    }
}

/// The trimmed bounds of `chars[from..to]`: the first and one past the last
/// character that is not white space (equal when there is none).
fn trim_bounds(chars: &Vec<char>, from: usize, to: usize) -> (r: (usize, usize))
    requires
        from <= to <= chars@.len(),
    ensures
        from <= r.0 <= r.1 <= to,
        trim(chars@.subrange(from as int, to as int)) == chars@.subrange(r.0 as int, r.1 as int),
{
    let mut a = from;
    while a < to && is_ws_exec(chars[a])
        invariant
            from <= a <= to <= chars@.len(),
            forall|k: int| from <= k < a ==> is_ws(#[trigger] chars@[k]),
        decreases to - a,
    {
        a += 1;
    }
    let mut b = to;
    while b > a && is_ws_exec(chars[b - 1])
        invariant
            a <= b <= to <= chars@.len(),
            forall|k: int| b <= k < to ==> is_ws(#[trigger] chars@[k]),
        decreases b - a,
    {
        b -= 1;
    }
    proof {
        lemma_trim_start(chars@, from as int, a as int, to as int);
        lemma_trim_end(chars@, a as int, b as int, to as int);
    }
    (a, b)
}

proof fn lemma_find_char(s: Seq<char>, c: char, i: int)
    requires
        0 <= i <= s.len(),
        forall|k: int| 0 <= k < i ==> #[trigger] s[k] != c,
        i == s.len() || s[i] == c,
    ensures
        find_char(s, c) == (if i < s.len() {
            Some(i)
        } else {
            None::<int>
        }),
    decreases i,
{
    if i > 0 {
        assert forall|k: int| 0 <= k < i - 1 implies #[trigger] s.drop_first()[k] != c by {
            assert(s.drop_first()[k] == s[k + 1]);
        }
        lemma_find_char(s.drop_first(), c, i - 1);
    } else if s.len() > 0 {
        assert(s[0] == c);
    }
}

/// Index of the first `c` in `chars[from..to]`, or `to`.
fn find_in(chars: &Vec<char>, from: usize, to: usize, c: char) -> (r: usize)
    requires
        from <= to <= chars@.len(),
    ensures
        from <= r <= to,
        forall|k: int| from <= k < r ==> #[trigger] chars@[k] != c,
        r < to ==> chars@[r as int] == c,
        find_char(chars@.subrange(from as int, to as int), c) == (if r < to {
            Some(r - from)
        } else {
            None::<int>
        }),
{
    let mut i = from;
    while i < to && chars[i] != c
        invariant
            from <= i <= to <= chars@.len(),
            forall|k: int| from <= k < i ==> #[trigger] chars@[k] != c,
        decreases to - i,
    {
        i += 1;
    }
    proof {
        let sub = chars@.subrange(from as int, to as int);
        assert forall|k: int| 0 <= k < i - from implies #[trigger] sub[k] != c by {
            assert(sub[k] == chars@[from + k]);
        }
        lemma_find_char(sub, c, i - from);
    }
    i
}

/// Whether `chars[a..b]` spells `word`.
fn spells(chars: &Vec<char>, a: usize, b: usize, word: &str) -> (r: bool)
    requires
        a <= b <= chars@.len(),
    ensures
        r == (chars@.subrange(a as int, b as int) == word@),
{
    let w = chars_of(word);
    if b - a != w.len() {
        return false;
    }
    let mut k: usize = 0;
    while k < w.len()
        invariant
            k <= w@.len(),
            w@ == word@,
            b - a == w@.len(),
            a <= b <= chars@.len(),
            forall|j: int| 0 <= j < k ==> chars@[a + j] == w@[j],
        decreases w@.len() - k,
    {
        if chars[a + k] != w[k] {
            proof {
                assert(chars@.subrange(a as int, b as int)[k as int] != w@[k as int]);
            }
            return false;
        }
        k += 1;
    }
    proof {
        assert(chars@.subrange(a as int, b as int) =~= w@);
    }
    true
}

/// Read an import map: the `name = action` entries in file order, or the
/// first malformed line.
pub fn parse_import_map_text(contents: &str) -> (r: Result<Vec<(String, ImportAction)>, ImportMapError>)
    requires
        contents@.len() < usize::MAX,
    ensures
        match r {
            Ok(v) => import_map_spec(contents@) == Ok::<
                Seq<(Seq<char>, ImportAction)>,
                (int, Option<Seq<char>>),
            >(v@.map_values(|e: (String, ImportAction)| (e.0@, e.1))),
            Err(ImportMapError::InvalidFormat { line }) => import_map_spec(contents@) == Err::<
                Seq<(Seq<char>, ImportAction)>,
                (int, Option<Seq<char>>),
            >((line as int, None)),
            Err(ImportMapError::UnknownAction { line, action }) => import_map_spec(contents@)
                == Err::<Seq<(Seq<char>, ImportAction)>, (int, Option<Seq<char>>)>(
                (line as int, Some(action@)),
            ),
        },
{
    let chars = chars_of(contents);
    let ghost s = chars@;
    let ghost lines = lines_of(s);
    let n = chars.len();
    let mut out: Vec<(String, ImportAction)> = Vec::new();
    let mut pos: usize = 0;
    let mut line_num: usize = 0;
    proof {
        assert(s.skip(0) =~= s);
        assert(out@.map_values(|e: (String, ImportAction)| (e.0@, e.1)) =~= Seq::<(Seq<char>, ImportAction)>::empty());
    }
    loop
        invariant
            s == chars@,
            s == contents@,
            n == s.len(),
            n < usize::MAX,
            pos <= n,
            line_num <= pos,
            line_num <= lines.len(),
            lines == lines_of(s),
            lines.skip(line_num as int) == lines_of(s.skip(pos as int)),
            entries_upto(lines, line_num as int) == Ok::<
                Seq<(Seq<char>, ImportAction)>,
                (int, Option<Seq<char>>),
            >(out@.map_values(|e: (String, ImportAction)| (e.0@, e.1))),
        decreases n - pos,
    {
        let end = find_in(&chars, pos, n, '\n');
        let ghost rest = s.skip(pos as int);
        let ghost line = s.subrange(pos as int, end as int);
        proof {
            assert(rest.subrange(0, (end - pos) as int) =~= line);
            assert(s.subrange(pos as int, n as int) =~= rest);
            lemma_lines_step(s, pos as int, end as int);
            assert(lines.skip(line_num as int).len() >= 1);
            assert(lines.skip(line_num as int)[0] == line);
            assert(lines[line_num as int] == line);
            assert(lines.skip(line_num + 1) =~= lines.skip(line_num as int).drop_first());
        }
        let ghost es = out@.map_values(|e: (String, ImportAction)| (e.0@, e.1));
        line_num += 1;
        let (a, b) = trim_bounds(&chars, pos, end);
        if !(a < b && chars[a] != '#') {
            proof {
                assert(parse_line(line) == LineOutcome::Skip);
            }
        }
        if a < b && chars[a] != '#' {
            let eq = find_in(&chars, a, b, '=');
            if eq == b {
                proof {
                    lemma_parse_line_no_eq(s, pos as int, end as int, a as int, b as int);
                    assert(entries_upto(lines, line_num as int) == Err::<
                        Seq<(Seq<char>, ImportAction)>,
                        (int, Option<Seq<char>>),
                    >((line_num as int, None)));
                    lemma_entries_err(lines, line_num as int, lines.len() as int);
                }
                return Err(ImportMapError::InvalidFormat { line: line_num });
            }
            let (na, nb) = trim_bounds(&chars, a, eq);
            let (aa, ab) = trim_bounds(&chars, eq + 1, b);
            proof {
                lemma_trim_split(s, a as int, eq as int, b as int);
                lemma_parse_line_entry(s, pos as int, end as int, a as int, b as int, eq as int, na as int, nb as int, aa as int, ab as int);
            }
            let action = if spells(&chars, aa, ab, "trap") {
                ImportAction::Trap
            } else if spells(&chars, aa, ab, "nop") {
                ImportAction::Nop
            } else {
                let text = String::from_str(contents.substring_char(aa, ab));
                proof {
                    assert(entries_upto(lines, line_num as int) == Err::<
                        Seq<(Seq<char>, ImportAction)>,
                        (int, Option<Seq<char>>),
                    >((line_num as int, Some(text@))));
                    lemma_entries_err(lines, line_num as int, lines.len() as int);
                }
                return Err(ImportMapError::UnknownAction { line: line_num, action: text });
            };
            proof {
                assert(parse_line(line) == LineOutcome::Entry(s.subrange(na as int, nb as int), action));
            }
            let name = String::from_str(contents.substring_char(na, nb));
            let ghost before = out@;
            out.push((name, action));
            proof {
                assert(out@.map_values(|e: (String, ImportAction)| (e.0@, e.1)) =~= before.map_values(
                    |e: (String, ImportAction)| (e.0@, e.1),
                ).push((s.subrange(na as int, nb as int), action)));
            }
        }
        if end == n {
            proof {
                assert(line_num == lines.len());
            }
            return Ok(out);
        }
        pos = end + 1;
    }
}

/// One step through the lines: the line starting at `pos` ends at the next
/// newline `end` (or the end of the text), and the lines after it are those
/// of the rest of the text.
proof fn lemma_lines_step(s: Seq<char>, pos: int, end: int)
    requires
        0 <= pos <= end <= s.len(),
        forall|k: int| pos <= k < end ==> #[trigger] s[k] != '\n',
        end < s.len() ==> s[end] == '\n',
        find_char(s.subrange(pos, s.len() as int), '\n') == (if end < s.len() {
            Some(end - pos)
        } else {
            None::<int>
        }),
    ensures
        lines_of(s.skip(pos)) == if end < s.len() {
            seq![s.subrange(pos, end)] + lines_of(s.skip(end + 1))
        } else {
            seq![s.subrange(pos, end)]
        },
{
    let rest = s.skip(pos);
    assert(rest =~= s.subrange(pos, s.len() as int));
    if end < s.len() {
        assert(rest.take(end - pos) =~= s.subrange(pos, end));
        assert(rest.skip(end - pos + 1) =~= s.skip(end + 1));
    } else {
        assert(rest =~= s.subrange(pos, end));
    }
}

proof fn lemma_parse_line_no_eq(s: Seq<char>, pos: int, end: int, a: int, b: int)
    requires
        0 <= pos <= a < b <= end <= s.len(),
        trim(s.subrange(pos, end)) == s.subrange(a, b),
        s[a] != '#',
        find_char(s.subrange(a, b), '=') is None,
    ensures
        parse_line(s.subrange(pos, end)) == LineOutcome::NoEquals,
{
}

/// Reading stops at the first error.
proof fn lemma_entries_err(lines: Seq<Seq<char>>, k: int, k2: int)
    requires
        0 <= k <= k2,
        entries_upto(lines, k) is Err,
    ensures
        entries_upto(lines, k2) == entries_upto(lines, k),
    decreases k2 - k,
{
    if k < k2 {
        lemma_entries_err(lines, k, k2 - 1);
    }
}

proof fn lemma_parse_line_entry(
    s: Seq<char>,
    pos: int,
    end: int,
    a: int,
    b: int,
    eq: int,
    na: int,
    nb: int,
    aa: int,
    ab: int,
)
    requires
        0 <= pos <= a <= eq < b <= end <= s.len(),
        trim(s.subrange(pos, end)) == s.subrange(a, b),
        s[a] != '#',
        find_char(s.subrange(a, b), '=') == Some(eq - a),
        trim(s.subrange(a, eq)) == s.subrange(na, nb),
        trim(s.subrange(eq + 1, b)) == s.subrange(aa, ab),
    ensures
        parse_line(s.subrange(pos, end)) == (if s.subrange(aa, ab) == "trap"@ {
            LineOutcome::Entry(s.subrange(na, nb), ImportAction::Trap)
        } else if s.subrange(aa, ab) == "nop"@ {
            LineOutcome::Entry(s.subrange(na, nb), ImportAction::Nop)
        } else {
            LineOutcome::BadAction(s.subrange(aa, ab))
        }),
{
    lemma_trim_split(s, a, eq, b);
    assert(s.subrange(a, b)[0] == s[a]);
}

proof fn lemma_trim_split(s: Seq<char>, a: int, eq: int, b: int)
    requires
        0 <= a <= eq < b <= s.len(),
    ensures
        s.subrange(a, b).take(eq - a) == s.subrange(a, eq),
        s.subrange(a, b).skip(eq - a + 1) == s.subrange(eq + 1, b),
{
    assert(s.subrange(a, b).take(eq - a) =~= s.subrange(a, eq));
    assert(s.subrange(a, b).skip(eq - a + 1) =~= s.subrange(eq + 1, b));
}

} // verus!
