//! The list of canisters the platform orchestrator controls, kept as a CSV
//! file with one principal per line under a `principal` header.
use vstd::prelude::*;
use crate::controllers::ids;
use crate::principal::{Principal, spec_principal_from_text};
use crate::text::{trim_chars, trimmed, string_of, chars_of, is_whitespace, spec_is_whitespace};

verus! {

/// The first position of `c` in `s` from `i` on, or -1.
pub open spec fn index_from(s: Seq<char>, c: char, i: int) -> int
    decreases s.len() + 1 - i,
{
    if i < 0 || i >= s.len() {
        -1
    } else if s[i] == c {
        i
    } else {
        index_from(s, c, i + 1)
    }
}

/// A line without the `'\r'` of a `"\r\n"` ending.
pub open spec fn strip_cr(line: Seq<char>) -> Seq<char> {
    if line.len() > 0 && line.last() == '\r' { line.drop_last() } else { line }
}

/// The lines of a text as `str::lines` gives them: split after each
/// `'\n'`, the `'\n'` (and a `'\r'` just before it) dropped; a last line
/// without `'\n'` is kept as it is.
pub open spec fn lines_of(s: Seq<char>) -> Seq<Seq<char>>
    decreases s.len(),
{
    if s.len() == 0 {
        Seq::empty()
    } else {
        let i = index_from(s, '\n', 0);
        proof {
            lemma_index_from_bounds(s, '\n', 0);
        }
        if i < 0 {
            seq![s]
        } else {
            seq![strip_cr(s.take(i))] + lines_of(s.skip(i + 1))
        }
    }
}

/// `index_from` finds `c` or answers -1, and nothing before the answer is `c`.
pub proof fn lemma_index_from_bounds(s: Seq<char>, c: char, i: int)
    ensures
        index_from(s, c, i) == -1 || (i <= index_from(s, c, i) < s.len() && s[index_from(s, c, i)] == c),
        index_from(s, c, i) >= 0 ==> forall|k: int| i <= k < index_from(s, c, i) ==> s[k] != c,
        index_from(s, c, i) == -1 && 0 <= i ==> forall|k: int| i <= k < s.len() ==> s[k] != c,
    decreases s.len() + 1 - i,
{
    if !(i < 0 || i >= s.len()) && s[i] != c {
        lemma_index_from_bounds(s, c, i + 1);
    }
}

proof fn lemma_index_from_shift(s: Seq<char>, c: char, start: int, i: int)
    requires
        0 <= start <= i <= s.len(),
        forall|k: int| start <= k < i ==> s[k] != c,
    ensures
        index_from(s.skip(start), c, 0) == (if index_from(s, c, i) < 0 { -1 } else { index_from(s, c, i) - start }),
    decreases i - start,
{
    let t = s.skip(start);
    if i == start {
        lemma_skip_index(s, c, start, 0);
    } else {
        lemma_index_from_shift(s, c, start, i - 1);
        assert(s[i - 1] != c);
    }
}

proof fn lemma_skip_index(s: Seq<char>, c: char, start: int, j: int)
    requires
        0 <= start <= s.len(),
        0 <= j,
    ensures
        index_from(s.skip(start), c, j) == (if index_from(s, c, start + j) < 0 { -1 } else { index_from(s, c, start + j) - start }),
    decreases s.len() + 1 - (start + j),
{
    let t = s.skip(start);
    if start + j < s.len() {
        assert(t[j] == s[start + j]);
        if s[start + j] != c {
            lemma_skip_index(s, c, start, j + 1);
        }
    }
}

/// The lines of a text.
pub fn split_lines(s: &Vec<char>) -> (r: Vec<Vec<char>>)
    ensures
        r@.map_values(|l: Vec<char>| l@) == lines_of(s@),
{
    let n = s.len();
    let mut out: Vec<Vec<char>> = Vec::new();
    let mut start: usize = 0;
    let mut cur: Vec<char> = Vec::new();
    let mut i: usize = 0;
    assert(s@.skip(0) =~= s@);
    assert(out@.map_values(|l: Vec<char>| l@) + lines_of(s@) =~= lines_of(s@));
    while i < n
        invariant
            n == s@.len(),
            start <= i <= n,
            cur@ == s@.subrange(start as int, i as int),
            forall|k: int| start <= k < i ==> s@[k] != '\n',
            out@.map_values(|l: Vec<char>| l@) + lines_of(s@.skip(start as int)) == lines_of(s@),
        decreases n - i,
    {
        if s[i] == '\n' {
            proof {
                let t = s@.skip(start as int);
                lemma_index_from_shift(s@, '\n', start as int, i as int);
                assert(index_from(s@, '\n', i as int) == i);
                assert(index_from(t, '\n', 0) == i - start);
                assert(t.take(i - start) =~= cur@);
                assert(t.skip(i - start + 1) =~= s@.skip(i + 1));
                assert(t.len() > 0);
                assert(lines_of(t) == seq![strip_cr(cur@)] + lines_of(s@.skip(i + 1)));
            }
            let mut line = cur;
            if line.len() > 0 && line[line.len() - 1] == '\r' {
                line.pop();
            }
            let ghost lv = line@;
            proof {
                assert(lv == strip_cr(s@.subrange(start as int, i as int)));
                assert(out@.push(line).map_values(|l: Vec<char>| l@) =~= out@.map_values(|l: Vec<char>| l@).push(lv));
            }
            out.push(line);
            cur = Vec::new();
            start = i + 1;
            i = i + 1;
            proof {
                assert(cur@ =~= s@.subrange(start as int, i as int));
            }
        } else {
            cur.push(s[i]);
            i = i + 1;
            assert(cur@ =~= s@.subrange(start as int, i as int));
        }
    }
    proof {
        let t = s@.skip(start as int);
        if start < n {
            lemma_index_from_shift(s@, '\n', start as int, i as int);
            assert(index_from(s@, '\n', n as int) == -1);
            assert(t =~= cur@);
        } else {
            assert(t.len() == 0);
        }
    }
    if start < n {
        let ghost cv = cur@;
        proof {
            assert(out@.push(cur).map_values(|l: Vec<char>| l@) =~= out@.map_values(|l: Vec<char>| l@).push(cv));
        }
        out.push(cur);
        proof {
            assert(out@.map_values(|l: Vec<char>| l@) =~= out@.map_values(|l: Vec<char>| l@) + Seq::<Seq<char>>::empty());
        }
    } else {
        assert(out@.map_values(|l: Vec<char>| l@) + Seq::<Seq<char>>::empty() =~= out@.map_values(|l: Vec<char>| l@));
    }
    out
}

/// The header row of the list.
pub open spec fn header_text() -> Seq<char> {
    "principal"@
}

/// What a line of the list holds: nothing (blank or the header), or the
/// parse of its trimmed text.
pub open spec fn line_entry(line: Seq<char>) -> Option<Result<Seq<u8>, Seq<char>>> {
    let t = trimmed(line);
    if t.len() == 0 || t == header_text() {
        None
    } else {
        Some(spec_principal_from_text(t))
    }
}

/// The principals listed on `lines`, in order.
pub open spec fn listed_principals(lines: Seq<Seq<char>>) -> Seq<Seq<u8>>
    decreases lines.len(),
{
    if lines.len() == 0 {
        Seq::empty()
    } else {
        listed_principals(lines.drop_last()) + match line_entry(lines.last()) {
            Some(Ok(p)) => seq![p],
            _ => Seq::empty(),
        }
    }
}

/// The lines that do not parse, as (line number from 1, trimmed text, error).
pub open spec fn invalid_lines(lines: Seq<Seq<char>>) -> Seq<(int, Seq<char>, Seq<char>)>
    decreases lines.len(),
{
    if lines.len() == 0 {
        Seq::empty()
    } else {
        invalid_lines(lines.drop_last()) + match line_entry(lines.last()) {
            Some(Err(e)) => seq![(lines.len() as int, trimmed(lines.last()), e)],
            _ => Seq::empty(),
        }
    }
}

/// A line of the list that does not hold a principal.
pub struct InvalidLine {
    /// Its number, from 1.
    pub line_number: usize,
    /// Its trimmed text.
    pub text: String,
    /// The parse error.
    pub error: String,
}

/// The principals of the list and the lines skipped for not parsing.
pub struct CanisterList {
    pub principals: Vec<Principal>,
    pub invalid: Vec<InvalidLine>,
}

fn is_header(t: &Vec<char>) -> (r: bool)
    ensures
        r == (t@ == header_text()),
{
    let h = crate::text::chars_of("principal");
    assert(h@ == header_text());
    if t.len() != h.len() {
        return false;
    }
    let mut i: usize = 0;
    while i < t.len()
        invariant
            t@.len() == h@.len(),
            h@ == header_text(),
            i <= t@.len(),
            forall|k: int| 0 <= k < i ==> t@[k] == h@[k],
        decreases t@.len() - i,
    {
        if t[i] != h[i] {
            assert(t@[i as int] != h@[i as int]);
            return false;
        }
        i = i + 1;
    }
    assert(t@ =~= h@);
    true
}

/// Reads the list's text: blank lines and the `principal` header are
/// skipped, and lines that do not parse as a principal are reported and
/// skipped.
pub fn parse_canister_list(content: &str) -> (r: CanisterList)
    ensures
        ids(r.principals@) == listed_principals(lines_of(content@)),
        r.invalid@.map_values(|l: InvalidLine| (l.line_number as int, l.text@, l.error@)) == invalid_lines(lines_of(content@)),
{
    let chars = crate::text::chars_of(content);
    let lines = split_lines(&chars);
    let ghost lv = lines@.map_values(|l: Vec<char>| l@);
    let mut principals: Vec<Principal> = Vec::new();
    let mut invalid: Vec<InvalidLine> = Vec::new();
    let mut i: usize = 0;
    while i < lines.len()
        invariant
            i <= lines@.len(),
            lv == lines@.map_values(|l: Vec<char>| l@),
            ids(principals@) == listed_principals(lv.take(i as int)),
            invalid@.map_values(|l: InvalidLine| (l.line_number as int, l.text@, l.error@)) == invalid_lines(lv.take(i as int)),
        decreases lines@.len() - i,
    {
        let t = trim_chars(&lines[i]);
        proof {
            let p = lv.take(i + 1);
            assert(p.drop_last() =~= lv.take(i as int));
            assert(p.last() == lines@[i as int]@);
        }
        if t.len() == 0 || is_header(&t) {
        } else {
            let text = string_of(&t);
            match Principal::from_text(text.as_str()) {
                Ok(p) => {
                    proof {
                        assert(ids(principals@.push(p)) =~= ids(principals@).push(p@));
                    }
                    principals.push(p);
                },
                Err(e) => {
                    let entry = InvalidLine { line_number: i + 1, text, error: e };
                    proof {
                        assert(invalid@.push(entry).map_values(|l: InvalidLine| (l.line_number as int, l.text@, l.error@))
                            =~= invalid@.map_values(|l: InvalidLine| (l.line_number as int, l.text@, l.error@))
                                .push((entry.line_number as int, entry.text@, entry.error@)));
                    }
                    invalid.push(entry);
                },
            }
        }
        i = i + 1;
    }
    assert(lv.take(i as int) =~= lv);
    CanisterList { principals, invalid }
}

/// The first `limit` principals of the list.
pub fn first_canisters(list: &CanisterList, limit: usize) -> (r: Vec<Principal>)
    ensures
        ids(r@) == ids(list.principals@).take(if limit < list.principals@.len() { limit as int } else { list.principals@.len() as int }),
{
    let n = if limit < list.principals.len() { limit } else { list.principals.len() };
    let mut out: Vec<Principal> = Vec::new();
    let mut i: usize = 0;
    while i < n
        invariant
            n <= list.principals@.len(),
            i <= n,
            ids(out@) == ids(list.principals@).take(i as int),
        decreases n - i,
    {
        let p = list.principals[i].duplicate();
        proof {
            assert(ids(out@.push(p)) =~= ids(out@).push(p@));
            assert(ids(list.principals@).take(i + 1) =~= ids(list.principals@).take(i as int).push(p@));
        }
        out.push(p);
        i = i + 1;
    }
    out
}

/// The text of a principal column read from the snapshot database; a NULL
/// reads as the empty text.
pub open spec fn row_text(row: Option<String>) -> Seq<char> {
    match row {
        Some(t) => t@,
        None => Seq::empty(),
    }
}

/// The principals of the rows, in order, or the parse error of the first row
/// that does not hold one.
pub open spec fn rows_principals(rows: Seq<Option<String>>) -> Result<Seq<Seq<u8>>, Seq<char>>
    decreases rows.len(),
{
    if rows.len() == 0 {
        Ok(Seq::empty())
    } else {
        match rows_principals(rows.drop_last()) {
            Err(e) => Err(e),
            Ok(ps) => match spec_principal_from_text(row_text(rows.last())) {
                Ok(p) => Ok(ps.push(p)),
                Err(e) => Err(e),
            },
        }
    }
}

/// Reads the principal column of rows of the snapshot database
/// (`po_controlled_canisters`, `po_subnet_orchestrators`): every row must
/// parse, and the first that does not gives the error.
pub fn principals_from_rows(rows: &Vec<Option<String>>) -> (r: Result<Vec<Principal>, String>)
    ensures
        rows_principals(rows@) matches Ok(ps) ==> (r matches Ok(v) && ids(v@) == ps),
        rows_principals(rows@) matches Err(m) ==> (r matches Err(e) && e@ == m),
{
    let mut out: Vec<Principal> = Vec::new();
    let mut i: usize = 0;
    assert(rows@.take(0) =~= Seq::<Option<String>>::empty());
    assert(ids(out@) =~= Seq::<Seq<u8>>::empty());
    while i < rows.len()
        invariant
            i <= rows@.len(),
            rows_principals(rows@.take(i as int)) == Ok::<Seq<Seq<u8>>, Seq<char>>(ids(out@)),
        decreases rows@.len() - i,
    {
        proof {
            let p = rows@.take(i + 1);
            assert(p.drop_last() =~= rows@.take(i as int));
            assert(p.last() == rows@[i as int]);
        }
        let parsed = match &rows[i] {
            Some(t) => Principal::from_text(t.as_str()),
            None => Principal::from_text(""),
        };
        proof {
            if rows@[i as int] is None {
                reveal_strlit("");
                assert(""@ =~= Seq::<char>::empty());
            }
        }
        match parsed {
            Ok(pr) => {
                proof {
                    assert(ids(out@.push(pr)) =~= ids(out@).push(pr@));
                }
                out.push(pr);
            },
            Err(e) => {
                proof {
                    lemma_rows_error_stays(rows@, i as int + 1);
                }
                return Err(e);
            },
        }
        i = i + 1;
    }
    assert(rows@.take(i as int) =~= rows@);
    Ok(out)
}

/// An error in a prefix of the rows is the error of all of them.
proof fn lemma_rows_error_stays(rows: Seq<Option<String>>, n: int)
    requires
        0 <= n <= rows.len(),
        rows_principals(rows.take(n)) is Err,
    ensures
        rows_principals(rows) == rows_principals(rows.take(n)),
    decreases rows.len() - n,
{
    if n < rows.len() {
        assert(rows.take(n + 1).drop_last() =~= rows.take(n));
        lemma_rows_error_stays(rows, n + 1);
    } else {
        assert(rows.take(n) =~= rows);
    }
}

/// The whitespace-separated words of a text (`str::split_whitespace`).
pub open spec fn words(s: Seq<char>) -> Seq<Seq<char>>
    decreases s.len(),
{
    if s.len() == 0 {
        Seq::empty()
    } else {
        let w = words(s.drop_last());
        let c = s.last();
        if spec_is_whitespace(c) {
            w
        } else if s.len() >= 2 && !spec_is_whitespace(s[s.len() - 2]) {
            w.drop_last().push(w.last().push(c))
        } else {
            w.push(seq![c])
        }
    }
}

/// The words of `chars`.
fn split_words(chars: &Vec<char>) -> (r: Vec<Vec<char>>)
    ensures
        r@.map_values(|w: Vec<char>| w@) == words(chars@),
{
    let n = chars.len();
    let mut out: Vec<Vec<char>> = Vec::new();
    let mut cur: Vec<char> = Vec::new();
    let mut i: usize = 0;
    assert(chars@.take(0) =~= Seq::<char>::empty());
    assert(out@.map_values(|w: Vec<char>| w@) =~= Seq::<Seq<char>>::empty());
    while i < n
        invariant
            n == chars@.len(),
            i <= n,
            cur@.len() > 0 <==> (i > 0 && !spec_is_whitespace(chars@[i - 1])),
            words(chars@.take(i as int)) == out@.map_values(|w: Vec<char>| w@)
                + (if cur@.len() > 0 { seq![cur@] } else { Seq::<Seq<char>>::empty() }),
        decreases n - i,
    {
        let c = chars[i];
        let ghost before = out@.map_values(|w: Vec<char>| w@);
        let ghost old_cur = cur@;
        proof {
            let t = chars@.take(i + 1);
            assert(t.drop_last() =~= chars@.take(i as int));
            assert(t.last() == c);
            if i > 0 {
                assert(t[t.len() - 2] == chars@[i - 1]);
            }
        }
        if is_whitespace(c) {
            if cur.len() > 0 {
                let mut done: Vec<char> = Vec::new();
                std::mem::swap(&mut done, &mut cur);
                proof {
                    assert(out@.push(done).map_values(|w: Vec<char>| w@) =~= before.push(old_cur));
                }
                out.push(done);
                proof {
                    assert(out@.map_values(|w: Vec<char>| w@) + Seq::<Seq<char>>::empty() =~= before + seq![old_cur]);
                }
            }
        } else {
            cur.push(c);
            proof {
                if old_cur.len() > 0 {
                    let w = before + seq![old_cur];
                    assert(w.drop_last() =~= before);
                    assert(w.last() == old_cur);
                    assert(w.drop_last().push(w.last().push(c)) =~= before + seq![cur@]);
                } else {
                    assert(cur@ =~= seq![c]);
                    assert(before.push(seq![c]) =~= before + seq![cur@]);
                    assert(before + Seq::<Seq<char>>::empty() =~= before);
                }
            }
        }
        i = i + 1;
    }
    assert(chars@.take(n as int) =~= chars@);
    if cur.len() > 0 {
        let ghost before = out@.map_values(|w: Vec<char>| w@);
        let ghost cv = cur@;
        out.push(cur);
        assert(out@.map_values(|w: Vec<char>| w@) =~= before + seq![cv]);
    } else {
        assert(out@.map_values(|w: Vec<char>| w@) + Seq::<Seq<char>>::empty() =~= out@.map_values(|w: Vec<char>| w@));
    }
    out
}

/// The label of the controllers line of `dfx canister info`.
pub open spec fn controllers_label() -> Seq<char> {
    "Controllers:"@
}

/// `line` starts with `prefix`.
pub open spec fn starts_with(line: Seq<char>, prefix: Seq<char>) -> bool {
    line.len() >= prefix.len() && line.take(prefix.len() as int) == prefix
}

/// The first line that starts with `prefix`.
pub open spec fn first_line_with(lines: Seq<Seq<char>>, prefix: Seq<char>) -> Option<Seq<char>>
    decreases lines.len(),
{
    if lines.len() == 0 {
        None
    } else if starts_with(lines[0], prefix) {
        Some(lines[0])
    } else {
        first_line_with(lines.drop_first(), prefix)
    }
}

/// The principals among `ws`, in order; the words that do not parse are
/// dropped.
pub open spec fn parsed_words(ws: Seq<Seq<char>>) -> Seq<Seq<u8>>
    decreases ws.len(),
{
    if ws.len() == 0 {
        Seq::empty()
    } else {
        parsed_words(ws.drop_last()) + match spec_principal_from_text(ws.last()) {
            Ok(p) => seq![p],
            Err(_) => Seq::empty(),
        }
    }
}

/// The controllers that `dfx canister info` prints: the principals on its
/// first `Controllers:` line, or `None` when there is no such line.
pub open spec fn info_controllers(text: Seq<char>) -> Option<Seq<Seq<u8>>> {
    match first_line_with(lines_of(text), controllers_label()) {
        Some(line) => Some(parsed_words(words(line.skip(controllers_label().len() as int)))),
        None => None,
    }
}

fn has_prefix(line: &Vec<char>, prefix: &Vec<char>) -> (r: bool)
    ensures
        r == starts_with(line@, prefix@),
{
    if line.len() < prefix.len() {
        return false;
    }
    let mut i: usize = 0;
    while i < prefix.len()
        invariant
            line@.len() >= prefix@.len(),
            i <= prefix@.len(),
            forall|k: int| 0 <= k < i ==> line@[k] == prefix@[k],
        decreases prefix@.len() - i,
    {
        if line[i] != prefix[i] {
            assert(line@.take(prefix@.len() as int)[i as int] != prefix@[i as int]);
            return false;
        }
        i = i + 1;
    }
    assert(line@.take(prefix@.len() as int) =~= prefix@);
    true
}

/// Reads the controllers from the output of `dfx canister info`.
pub fn controllers_from_info(output: &str) -> (r: Option<Vec<Principal>>)
    ensures
        info_controllers(output@) matches Some(ps) ==> (r matches Some(v) && ids(v@) == ps),
        info_controllers(output@) is None ==> r is None,
{
    let chars = chars_of(output);
    let lines = split_lines(&chars);
    let label = chars_of("Controllers:");
    let ghost lv = lines@.map_values(|l: Vec<char>| l@);
    let mut i: usize = 0;
    assert(lv.skip(0) =~= lv);
    while i < lines.len()
        invariant
            i <= lines@.len(),
            lv == lines@.map_values(|l: Vec<char>| l@),
            lv == lines_of(output@),
            label@ == controllers_label(),
            first_line_with(lv, controllers_label()) == first_line_with(lv.skip(i as int), controllers_label()),
        decreases lines@.len() - i,
    {
        proof {
            let t = lv.skip(i as int);
            assert(t[0] == lines@[i as int]@);
            assert(t.drop_first() =~= lv.skip(i + 1));
        }
        if has_prefix(&lines[i], &label) {
            let line = &lines[i];
            let mut rest: Vec<char> = Vec::new();
            let mut j: usize = label.len();
            while j < line.len()
                invariant
                    label@.len() <= j <= line@.len(),
                    rest@ == line@.subrange(label@.len() as int, j as int),
                decreases line@.len() - j,
            {
                rest.push(line[j]);
                j = j + 1;
                assert(rest@ =~= line@.subrange(label@.len() as int, j as int));
            }
            assert(rest@ =~= line@.skip(label@.len() as int));
            let ws = split_words(&rest);
            let ghost wv = ws@.map_values(|w: Vec<char>| w@);
            let mut out: Vec<Principal> = Vec::new();
            let mut k: usize = 0;
            assert(wv.take(0) =~= Seq::<Seq<char>>::empty());
            assert(ids(out@) =~= Seq::<Seq<u8>>::empty());
            while k < ws.len()
                invariant
                    k <= ws@.len(),
                    wv == ws@.map_values(|w: Vec<char>| w@),
                    ids(out@) == parsed_words(wv.take(k as int)),
                decreases ws@.len() - k,
            {
                proof {
                    let t = wv.take(k + 1);
                    assert(t.drop_last() =~= wv.take(k as int));
                    assert(t.last() == ws@[k as int]@);
                }
                let word = string_of(&ws[k]);
                match Principal::from_text(word.as_str()) {
                    Ok(p) => {
                        proof {
                            assert(ids(out@.push(p)) =~= ids(out@).push(p@));
                        }
                        out.push(p);
                    },
                    Err(_) => {
                        assert(ids(out@) =~= ids(out@) + Seq::<Seq<u8>>::empty());
                    },
                }
                k = k + 1;
            }
            assert(wv.take(k as int) =~= wv);
            return Some(out);
        }
        i = i + 1;
    }
    assert(lv.skip(i as int) =~= Seq::<Seq<char>>::empty());
    None
}

} // verus!
