use crate::errors::AppError;
use crate::text::{has_prefix, joined, owned, same_text, strings_view};
use vstd::prelude::*;
use vstd::string::*;

verus! {

/// The character of a decimal digit.
pub open spec fn digit_char(d: nat) -> char {
    if d == 0 {
        '0'
    } else if d == 1 {
        '1'
    } else if d == 2 {
        '2'
    } else if d == 3 {
        '3'
    } else if d == 4 {
        '4'
    } else if d == 5 {
        '5'
    } else if d == 6 {
        '6'
    } else if d == 7 {
        '7'
    } else if d == 8 {
        '8'
    } else {
        '9'
    }
}

/// The decimal representation of `n`, without leading zeros.
pub open spec fn decimal(n: nat) -> Seq<char>
    decreases n,
{
    if n < 10 {
        seq![digit_char(n)]
    } else {
        decimal(n / 10) + seq![digit_char(n % 10)]
    }
}

fn digit_str(d: u8) -> (r: &'static str)
    requires
        d < 10,
    ensures
        r@ == seq![digit_char(d as nat)],
{
    proof {
        reveal_strlit("0");
        reveal_strlit("1");
        reveal_strlit("2");
        reveal_strlit("3");
        reveal_strlit("4");
        reveal_strlit("5");
        reveal_strlit("6");
        reveal_strlit("7");
        reveal_strlit("8");
        reveal_strlit("9");
    }
    if d == 0 {
        "0"
    } else if d == 1 {
        "1"
    } else if d == 2 {
        "2"
    } else if d == 3 {
        "3"
    } else if d == 4 {
        "4"
    } else if d == 5 {
        "5"
    } else if d == 6 {
        "6"
    } else if d == 7 {
        "7"
    } else if d == 8 {
        "8"
    } else {
        "9"
    }
}

fn decimal_string(n: u8) -> (r: String)
    ensures
        r@ == decimal(n as nat),
{
    let mut s = String::new();
    if n >= 100 {
        s.append(digit_str(n / 100));
    }
    if n >= 10 {
        s.append(digit_str((n / 10) % 10));
    }
    s.append(digit_str(n % 10));
    proof {
        let k = n as nat;
        if k >= 100 {
            assert(decimal(k / 100) == seq![digit_char(k / 100)]);
            assert((k / 10) / 10 == k / 100);
            assert(decimal(k / 10) == decimal(k / 100) + seq![digit_char((k / 10) % 10)]);
            assert(decimal(k) == decimal(k / 10) + seq![digit_char(k % 10)]);
        } else if k >= 10 {
            assert(decimal(k / 10) == seq![digit_char(k / 10)]);
            assert(decimal(k) == decimal(k / 10) + seq![digit_char(k % 10)]);
        }
    }
    s
}

/// The relational backends whose placeholder syntax the builder speaks.
#[derive(Clone, Copy, Debug, PartialEq, Eq, Structural)]
pub enum BackendName {
    Postgres,
    Mysql,
    Sqlite,
}

/// The positional-parameter token of backend `bn` for parameter `index`: `$N` for
/// Postgres, `?N` for SQLite, and a bare `?` for MySQL, which binds in call order.
pub open spec fn placeholder(bn: BackendName, index: nat) -> Seq<char> {
    match bn {
        BackendName::Postgres => seq!['$'] + decimal(index),
        BackendName::Sqlite => seq!['?'] + decimal(index),
        BackendName::Mysql => seq!['?'],
    }
}

impl BackendName {
    /// The placeholder token for the parameter at `index`.
    pub fn to_query(&self, index: u8) -> (r: String)
        ensures
            r@ == placeholder(*self, index as nat),
    {
        proof {
            reveal_strlit("$");
            reveal_strlit("?");
        }
        match self {
            BackendName::Postgres => joined(owned("$"), decimal_string(index).as_str()),
            BackendName::Sqlite => joined(owned("?"), decimal_string(index).as_str()),
            BackendName::Mysql => owned("?"),
        }
    }

    /// Reads a backend from the name its driver reports: `PostgreSQL`, `MySQL` or
    /// `SQLite`. Any other name is a configuration error.
    pub fn from_name(value: &str) -> (r: Result<BackendName, AppError>)
        ensures
            value@ == "PostgreSQL"@ ==> r == Ok::<BackendName, AppError>(BackendName::Postgres),
            value@ == "MySQL"@ ==> r == Ok::<BackendName, AppError>(BackendName::Mysql),
            value@ == "SQLite"@ ==> r == Ok::<BackendName, AppError>(BackendName::Sqlite),
            value@ != "PostgreSQL"@ && value@ != "MySQL"@ && value@ != "SQLite"@ ==> (r is Err
                && r->Err_0 is InternalServerError && r->Err_0->InternalServerError_0@
                == "unable to parse backend name"@),
    {
        proof {
            reveal_strlit("PostgreSQL");
            reveal_strlit("MySQL");
            reveal_strlit("SQLite");
            assert("PostgreSQL"@ != "MySQL"@ && "PostgreSQL"@ != "SQLite"@ && "MySQL"@ != "SQLite"@) by {
                assert("PostgreSQL"@.len() == 10);
                assert("MySQL"@.len() == 5);
                assert("SQLite"@.len() == 6);
            }
        }
        if same_text(value, "PostgreSQL") {
            Ok(BackendName::Postgres)
        } else if same_text(value, "MySQL") {
            Ok(BackendName::Mysql)
        } else if same_text(value, "SQLite") {
            Ok(BackendName::Sqlite)
        } else {
            Err(AppError::InternalServerError(owned("unable to parse backend name")))
        }
    }
}


/// The connective that joins a fragment to the one before it.
#[derive(Clone, Copy, Debug, PartialEq, Eq, Structural)]
pub enum Connective {
    And,
    Or,
}

pub open spec fn and_prefix() -> Seq<char> {
    seq!['A', 'N', 'D', ' ']
}

pub open spec fn or_prefix() -> Seq<char> {
    seq!['O', 'R', ' ']
}

/// The connective a fragment opens with (`AND ` or `OR `), and what follows it.
pub open spec fn split_connective(f: Seq<char>) -> (Option<Connective>, Seq<char>) {
    if f.len() >= 4 && f.take(4) == and_prefix() {
        (Some(Connective::And), f.skip(4))
    } else if f.len() >= 3 && f.take(3) == or_prefix() {
        (Some(Connective::Or), f.skip(3))
    } else {
        (None, f)
    }
}

pub open spec fn connective_text(c: Option<Connective>) -> Seq<char> {
    match c {
        Some(Connective::And) => and_prefix(),
        Some(Connective::Or) => or_prefix(),
        None => Seq::empty(),
    }
}

/// Whether a fragment body is written as a parenthesized group.
pub open spec fn is_parenthesized(b: Seq<char>) -> bool {
    b.len() >= 2 && b[0] == '(' && b[b.len() - 1] == ')'
}

pub open spec fn strip_parens(b: Seq<char>) -> Seq<char> {
    if is_parenthesized(b) {
        b.subrange(1, b.len() - 1)
    } else {
        b
    }
}

/// `s` split at every space; two adjacent spaces give an empty word.
pub open spec fn words(s: Seq<char>) -> Seq<Seq<char>>
    decreases s.len(),
{
    if s.len() == 0 {
        seq![Seq::empty()]
    } else {
        let w = words(s.drop_last());
        if s.last() == ' ' {
            w.push(Seq::empty())
        } else {
            w.update(w.len() - 1, w.last().push(s.last()))
        }
    }
}

/// A column reference: non-empty, with no space and no parenthesis.
pub open spec fn is_column(w: Seq<char>) -> bool {
    w.len() > 0 && forall|i: int| 0 <= i < w.len() ==> w[i] != ' ' && w[i] != '(' && w[i] != ')'
}

pub open spec fn is_connective_word(w: Seq<char>) -> bool {
    w == seq!['A', 'N', 'D'] || w == seq!['O', 'R']
}

/// Columns alternating with connectives, starting and ending with a column.
pub open spec fn well_formed_words(ws: Seq<Seq<char>>) -> bool {
    &&& ws.len() % 2 == 1
    &&& forall|i: int|
        0 <= i < ws.len() ==> if i % 2 == 0 {
            is_column(#[trigger] ws[i])
        } else {
            is_connective_word(ws[i])
        }
}

/// The words of a fragment's body, connective and parentheses removed.
pub open spec fn fragment_words(f: Seq<char>) -> Seq<Seq<char>> {
    words(strip_parens(split_connective(f).1))
}

/// A fragment is accepted when its body is well formed, and it carries a connective
/// exactly when it is not the first of its chain.
pub open spec fn fragment_ok(f: Seq<char>, first: bool) -> bool {
    well_formed_words(fragment_words(f)) && (split_connective(f).0 is None) == first
}

/// The number of placeholders a fragment consumes: one per column.
pub open spec fn fragment_width(f: Seq<char>) -> nat {
    ((fragment_words(f).len() + 1) / 2) as nat
}

/// `col = <placeholder>`.
pub open spec fn column_eq(col: Seq<char>, bn: BackendName, index: nat) -> Seq<char> {
    col + seq![' ', '=', ' '] + placeholder(bn, index)
}

/// The words of a group with each column bound to the next placeholder from `start`.
pub open spec fn render_words(ws: Seq<Seq<char>>, bn: BackendName, start: nat) -> Seq<char>
    decreases ws.len(),
{
    if ws.len() <= 1 {
        column_eq(ws[0], bn, start)
    } else {
        render_words(ws.take(ws.len() - 2), bn, start) + seq![' '] + ws[ws.len() - 2] + seq![' ']
            + column_eq(ws[ws.len() - 1], bn, start + ((ws.len() - 1) / 2) as nat)
    }
}

/// One fragment rendered: its connective kept, a group of several columns (or one
/// written in parentheses) wrapped in parentheses.
pub open spec fn render_fragment(f: Seq<char>, bn: BackendName, start: nat) -> Seq<char> {
    let ws = fragment_words(f);
    let body = render_words(ws, bn, start);
    connective_text(split_connective(f).0) + if is_parenthesized(split_connective(f).1) || ws.len()
        > 1 {
        seq!['('] + body + seq![')']
    } else {
        body
    }
}

pub open spec fn chain_ok(fs: Seq<Seq<char>>) -> bool {
    forall|i: int| 0 <= i < fs.len() ==> fragment_ok(#[trigger] fs[i], i == 0)
}

/// Placeholders consumed by a chain of fragments.
pub open spec fn chain_width(fs: Seq<Seq<char>>) -> nat
    decreases fs.len(),
{
    if fs.len() == 0 {
        0
    } else {
        chain_width(fs.drop_last()) + fragment_width(fs.last())
    }
}

/// The fragments rendered one after the other, separated by spaces, placeholders
/// numbered on from `start`.
pub open spec fn render_chain(fs: Seq<Seq<char>>, bn: BackendName, start: nat) -> Seq<char>
    decreases fs.len(),
{
    if fs.len() == 0 {
        Seq::empty()
    } else {
        let cur = render_fragment(fs.last(), bn, start + chain_width(fs.drop_last()));
        if fs.len() == 1 {
            cur
        } else {
            render_chain(fs.drop_last(), bn, start) + seq![' '] + cur
        }
    }
}

proof fn lemma_words_nonempty(s: Seq<char>)
    ensures
        words(s).len() >= 1,
    decreases s.len(),
{
    if s.len() > 0 {
        lemma_words_nonempty(s.drop_last());
    }
}

/// Splits `s` at every space.
fn split_words(s: &str) -> (r: Vec<String>)
    ensures
        strings_view(r@) == words(s@),
{
    let n = s.unicode_len();
    let mut done: Vec<String> = Vec::new();
    let mut start: usize = 0;
    let mut i: usize = 0;
    assert(s@.take(0) =~= Seq::<char>::empty());
    assert(strings_view(done@).push(s@.subrange(0, 0)) =~= words(s@.take(0)));
    while i < n
        invariant
            n == s@.len(),
            start <= i <= n,
            strings_view(done@).push(s@.subrange(start as int, i as int)) == words(s@.take(i as int)),
        decreases n - i,
    {
        let c = s.get_char(i);
        proof {
            let t = s@.take(i + 1);
            assert(t.drop_last() =~= s@.take(i as int));
            assert(t.last() == c);
            lemma_words_nonempty(s@.take(i as int));
        }
        let ghost before = strings_view(done@);
        let ghost cur = s@.subrange(start as int, i as int);
        proof {
            assert(s@.subrange(start as int, i + 1) =~= cur.push(c));
        }
        if c == ' ' {
            let w = s.substring_char(start, i);
            done.push(owned(w));
            start = i + 1;
            assert(strings_view(done@) =~= before.push(cur));
            assert(s@.subrange(start as int, i + 1) =~= Seq::<char>::empty());
            assert(strings_view(done@).push(s@.subrange(start as int, i + 1)) =~= words(
                s@.take(i + 1),
            ));
        } else {
            let ghost w = before.push(cur);
            assert(w.update(w.len() - 1, w.last().push(c)) =~= before.push(cur.push(c)));
            assert(strings_view(done@).push(s@.subrange(start as int, i + 1)) =~= words(
                s@.take(i + 1),
            ));
        }
        i = i + 1;
    }
    let ghost before = strings_view(done@);
    let w = s.substring_char(start, n);
    done.push(owned(w));
    assert(strings_view(done@) =~= before.push(s@.subrange(start as int, n as int)));
    assert(s@.take(n as int) =~= s@);
    assert(strings_view(done@) =~= words(s@));
    done
}

fn check_column(w: &str) -> (r: bool)
    ensures
        r == is_column(w@),
{
    let n = w.unicode_len();
    if n == 0 {
        return false;
    }
    let mut i: usize = 0;
    while i < n
        invariant
            n == w@.len(),
            i <= n,
            forall|k: int| 0 <= k < i ==> w@[k] != ' ' && w@[k] != '(' && w@[k] != ')',
        decreases n - i,
    {
        let c = w.get_char(i);
        if c == ' ' || c == '(' || c == ')' {
            return false;
        }
        i = i + 1;
    }
    true
}

fn check_words(ws: &Vec<String>) -> (r: bool)
    ensures
        r == well_formed_words(strings_view(ws@)),
{
    if ws.len() % 2 != 1 {
        return false;
    }
    proof {
        reveal_strlit("AND");
        reveal_strlit("OR");
        assert("AND"@ =~= seq!['A', 'N', 'D']);
        assert("OR"@ =~= seq!['O', 'R']);
    }
    let mut i: usize = 0;
    while i < ws.len()
        invariant
            ws.len() % 2 == 1,
            i <= ws.len(),
            forall|k: int|
                0 <= k < i ==> if k % 2 == 0 {
                    is_column(#[trigger] strings_view(ws@)[k])
                } else {
                    is_connective_word(strings_view(ws@)[k])
                },
        decreases ws.len() - i,
    {
        let w = ws[i].as_str();
        assert(strings_view(ws@)[i as int] == w@);
        if i % 2 == 0 {
            if !check_column(w) {
                assert(!is_column(strings_view(ws@)[i as int]));
                return false;
            }
        } else {
            proof {
                reveal_strlit("AND");
                reveal_strlit("OR");
                assert("AND"@ =~= seq!['A', 'N', 'D']);
                assert("OR"@ =~= seq!['O', 'R']);
            }
            let is_and = same_text(w, "AND");
            let is_or = same_text(w, "OR");
            if !is_and && !is_or {
                assert(!is_connective_word(strings_view(ws@)[i as int]));
                return false;
            }
            assert(is_connective_word(strings_view(ws@)[i as int]));
        }
        i = i + 1;
    }
    true
}

/// A fragment taken apart: its connective, whether its body was parenthesized, and
/// the words of the body.
struct ParsedFragment {
    connective: Option<Connective>,
    parenthesized: bool,
    words: Vec<String>,
}

spec fn parsed_as(p: ParsedFragment, f: Seq<char>) -> bool {
    &&& p.connective == split_connective(f).0
    &&& p.parenthesized == is_parenthesized(split_connective(f).1)
    &&& strings_view(p.words@) == fragment_words(f)
}

fn parse_fragment(f: &str) -> (r: ParsedFragment)
    ensures
        parsed_as(r, f@),
{
    proof {
        reveal_strlit("AND ");
        reveal_strlit("OR ");
        reveal_strlit("(");
        reveal_strlit(")");
    }
    let n = f.unicode_len();
    let (connective, rest) = if has_prefix(f, "AND ") {
        assert("AND "@ =~= and_prefix());
        (Some(Connective::And), f.substring_char(4, n))
    } else if has_prefix(f, "OR ") {
        assert("OR "@ =~= or_prefix());
        assert(!(f@.len() >= 4 && f@.take(4) == and_prefix())) by {
            if f@.len() >= 4 && f@.take(4) == and_prefix() {
                assert(f@.take(3) =~= f@.take(4).take(3));
            }
        }
        (Some(Connective::Or), f.substring_char(3, n))
    } else {
        assert("AND "@ =~= and_prefix());
        assert("OR "@ =~= or_prefix());
        (None, f)
    };
    assert(rest@ == split_connective(f@).1);
    let m = rest.unicode_len();
    let parenthesized = m >= 2 && rest.get_char(0) == '(' && rest.get_char(m - 1) == ')';
    assert(parenthesized == is_parenthesized(rest@));
    let body = if parenthesized {
        rest.substring_char(1, m - 1)
    } else {
        rest
    };
    let words = split_words(body);
    ParsedFragment { connective, parenthesized, words }
}

fn column_query(col: &str, bn: &BackendName, index: u8) -> (r: String)
    ensures
        r@ == column_eq(col@, *bn, index as nat),
{
    proof {
        reveal_strlit(" = ");
    }
    joined(joined(owned(col), " = "), bn.to_query(index).as_str())
}

fn render_parsed(p: &ParsedFragment, bn: &BackendName, start: u8) -> (r: String)
    requires
        well_formed_words(strings_view(p.words@)),
        start + (p.words@.len() + 1) / 2 <= 256,
    ensures
        r@ == connective_text(p.connective) + if p.parenthesized || p.words@.len() > 1 {
            seq!['('] + render_words(strings_view(p.words@), *bn, start as nat) + seq![')']
        } else {
            render_words(strings_view(p.words@), *bn, start as nat)
        },
{
    proof {
        reveal_strlit("AND ");
        reveal_strlit("OR ");
        reveal_strlit("(");
        reveal_strlit(")");
        reveal_strlit(" ");
    }
    let ghost ws = strings_view(p.words@);
    let len = p.words.len();
    assert(ws[0] == p.words@[0]@);
    let mut body = column_query(p.words[0].as_str(), bn, start);
    let mut k: usize = 1;
    assert(ws.take(1).len() == 1);
    assert(ws.take(1)[0] == ws[0]);
    while k < len
        invariant
            ws == strings_view(p.words@),
            len == ws.len(),
            len % 2 == 1,
            k % 2 == 1,
            k <= len,
            start + (len + 1) / 2 <= 256,
            body@ == render_words(ws.take(k as int), *bn, start as nat),
        decreases len - k,
    {
        let idx: u8 = start + ((k + 1) / 2) as u8;
        assert(idx as nat == start + (k + 1) / 2);
        assert(ws[k as int] == p.words@[k as int]@);
        assert(ws[k + 1] == p.words@[k + 1]@);
        let piece = joined(joined(owned(" "), p.words[k].as_str()), " ");
        let col = column_query(p.words[k + 1].as_str(), bn, idx);
        body = joined(joined(body, piece.as_str()), col.as_str());
        proof {
            let t = ws.take(k + 2);
            assert(t.take(t.len() - 2) =~= ws.take(k as int));
            assert(t[t.len() - 2] == ws[k as int]);
            assert(t[t.len() - 1] == ws[k + 1]);
            assert(((t.len() - 1) / 2) as nat == (k + 1) / 2);
            assert(render_words(t, *bn, start as nat) == render_words(ws.take(k as int), *bn, start as nat)
                + seq![' '] + ws[k as int] + seq![' '] + column_eq(ws[k + 1], *bn, idx as nat));
            reveal_strlit(" ");
            assert(" "@ =~= seq![' ']);
            assert(piece@ =~= seq![' '] + ws[k as int] + seq![' ']);
            assert(body@ =~= render_words(t, *bn, start as nat));
        }
        k = k + 2;
    }
    assert(ws.take(len as int) =~= ws);
    let wrapped = if p.parenthesized || len > 1 {
        joined(joined(owned("("), body.as_str()), ")")
    } else {
        body
    };
    let head = match p.connective {
        Some(Connective::And) => owned("AND "),
        Some(Connective::Or) => owned("OR "),
        None => String::new(),
    };
    assert(head@ == connective_text(p.connective)) by {
        assert("AND "@ =~= and_prefix());
        assert("OR "@ =~= or_prefix());
    }
    joined(head, wrapped.as_str())
}


proof fn lemma_chain_width_step(fs: Seq<Seq<char>>, i: int)
    requires
        0 <= i < fs.len(),
    ensures
        chain_width(fs.take(i + 1)) == chain_width(fs.take(i)) + fragment_width(fs[i]),
{
    assert(fs.take(i + 1).drop_last() =~= fs.take(i));
}

proof fn lemma_chain_width_prefix(fs: Seq<Seq<char>>, i: int)
    requires
        0 <= i <= fs.len(),
    ensures
        chain_width(fs.take(i)) <= chain_width(fs),
    decreases fs.len() - i,
{
    if i < fs.len() {
        lemma_chain_width_step(fs, i);
        lemma_chain_width_prefix(fs, i + 1);
    } else {
        assert(fs.take(i) =~= fs);
    }
}

/// A chain of filter fragments: one base predicate followed by fragments that each
/// open with `AND ` or `OR `, rendered with placeholders numbered from `offset`.
pub struct SqlxFilters {
    items: Vec<String>,
    offset: u8,
}

impl SqlxFilters {
    /// The fragments of the chain, in order.
    pub closed spec fn fragments(&self) -> Seq<Seq<char>> {
        strings_view(self.items@)
    }

    /// The index of the first placeholder.
    pub closed spec fn first_index(&self) -> u8 {
        self.offset
    }

    /// A chain holds at least its base predicate.
    pub open spec fn wf(&self) -> bool {
        self.fragments().len() >= 1
    }

    /// A chain holding the base predicate `filter`.
    pub fn new(filter: &str, offset: u8) -> (r: SqlxFilters)
        ensures
            r.wf(),
            r.fragments() == seq![filter@],
            r.first_index() == offset,
    {
        let mut items: Vec<String> = Vec::new();
        items.push(owned(filter));
        let r = SqlxFilters { items, offset };
        assert(r.fragments() =~= seq![filter@]);
        r
    }

    /// The chain with `filter` appended.
    pub fn add(self, filter: &str) -> (r: SqlxFilters)
        ensures
            r.wf(),
            r.fragments() == self.fragments().push(filter@),
            r.first_index() == self.first_index(),
    {
        let mut items = self.items;
        let ghost before = strings_view(items@);
        items.push(owned(filter));
        let r = SqlxFilters { items, offset: self.offset };
        assert(r.fragments() =~= before.push(filter@));
        r
    }

    /// Renders the chain for backend `bn`: each column becomes `col = <placeholder>`,
    /// placeholders numbered on from the offset, one per column. A malformed fragment
    /// is a parsing error; a chain whose placeholders would pass index 255 is an
    /// internal error.
    pub fn to_query(&self, bn: &BackendName) -> (r: Result<String, AppError>)
        ensures
            !chain_ok(self.fragments()) ==> (r is Err && r->Err_0 is ParsingError),
            chain_ok(self.fragments()) && self.first_index() + chain_width(self.fragments()) > 256
                ==> (r is Err && r->Err_0 is InternalServerError),
            chain_ok(self.fragments()) && self.first_index() + chain_width(self.fragments())
                <= 256 ==> (r is Ok && r->Ok_0@ == render_chain(
                self.fragments(),
                *bn,
                self.first_index() as nat,
            )),
    {
        let ghost fs = self.fragments();
        let n = self.items.len();
        let offset = self.offset;
        let mut parsed: Vec<ParsedFragment> = Vec::new();
        let mut total: usize = 0;
        let mut too_wide = false;
        let mut i: usize = 0;
        while i < n
            invariant
                fs == strings_view(self.items@),
                n == fs.len(),
                offset == self.offset,
                i <= n,
                parsed@.len() == i,
                forall|j: int| 0 <= j < i ==> parsed_as(#[trigger] parsed@[j], fs[j]),
                forall|j: int| 0 <= j < i ==> fragment_ok(#[trigger] fs[j], j == 0),
                too_wide ==> offset + chain_width(fs.take(i as int)) > 256,
                !too_wide ==> total == chain_width(fs.take(i as int)) && offset + total <= 256,
            decreases n - i,
        {
            let f = self.items[i].as_str();
            assert(f@ == fs[i as int]);
            let p = parse_fragment(f);
            let words_ok = check_words(&p.words);
            let conn_ok = p.connective.is_none() == (i == 0);
            if !words_ok || !conn_ok {
                assert(!fragment_ok(fs[i as int], i == 0));
                return Err(AppError::ParsingError(owned("malformed filter fragment")));
            }
            proof {
                lemma_chain_width_step(fs, i as int);
            }
            let width = p.words.len() / 2 + 1;
            assert(width == fragment_width(fs[i as int]));
            if !too_wide {
                if (offset as usize) + total + width > 256 {
                    too_wide = true;
                } else {
                    total = total + width;
                }
            }
            parsed.push(p);
            i = i + 1;
        }
        assert(fs.take(n as int) =~= fs);
        if too_wide {
            return Err(AppError::InternalServerError(owned("too many query placeholders")));
        }
        let mut out = String::new();
        let mut pos: usize = offset as usize;
        let mut k: usize = 0;
        assert(fs.take(0) =~= Seq::<Seq<char>>::empty());
        while k < n
            invariant
                n == fs.len(),
                parsed@.len() == n,
                forall|j: int| 0 <= j < n ==> parsed_as(#[trigger] parsed@[j], fs[j]),
                forall|j: int| 0 <= j < n ==> fragment_ok(#[trigger] fs[j], j == 0),
                offset + chain_width(fs) <= 256,
                k <= n,
                pos == offset + chain_width(fs.take(k as int)),
                out@ == render_chain(fs.take(k as int), *bn, offset as nat),
            decreases n - k,
        {
            proof {
                lemma_chain_width_step(fs, k as int);
                lemma_chain_width_prefix(fs, k + 1);
                assert(fragment_ok(fs[k as int], k == 0));
                assert(parsed_as(parsed@[k as int], fs[k as int]));
            }
            let p = &parsed[k];
            let piece = render_parsed(p, bn, pos as u8);
            proof {
                reveal_strlit(" ");
                let t = fs.take(k + 1);
                assert(t.drop_last() =~= fs.take(k as int));
                assert(t.last() == fs[k as int]);
                assert(piece@ == render_fragment(fs[k as int], *bn, pos as nat));
            }
            if k == 0 {
                out = piece;
            } else {
                out = joined(joined(out, " "), piece.as_str());
                assert(" "@ =~= seq![' ']);
            }
            pos = pos + p.words.len() / 2 + 1;
            k = k + 1;
        }
        assert(fs.take(n as int) =~= fs);
        Ok(out)
    }
}


/// `count` placeholders numbered from `start`, separated by `, `.
pub open spec fn placeholder_list(bn: BackendName, count: nat, start: nat) -> Seq<char>
    decreases count,
{
    if count == 0 {
        Seq::empty()
    } else if count == 1 {
        placeholder(bn, start)
    } else {
        placeholder_list(bn, (count - 1) as nat, start) + seq![',', ' '] + placeholder(
            bn,
            (start + count - 1) as nat,
        )
    }
}

/// `col = <placeholder>` for each column, placeholders numbered from `start`, joined
/// by `, `.
pub open spec fn setter_list(cols: Seq<Seq<char>>, bn: BackendName, start: nat) -> Seq<char>
    decreases cols.len(),
{
    if cols.len() == 0 {
        Seq::empty()
    } else if cols.len() == 1 {
        column_eq(cols[0], bn, start)
    } else {
        setter_list(cols.drop_last(), bn, start) + seq![',', ' '] + column_eq(
            cols.last(),
            bn,
            (start + cols.len() - 1) as nat,
        )
    }
}

/// An SQL fragment that renders the same way for every backend, up to placeholder
/// syntax.
pub trait ToQuery {
    /// Whether every placeholder index the fragment needs fits in a byte.
    spec fn fits(&self) -> bool;

    /// The text of the fragment for backend `bn`.
    spec fn query_spec(&self, bn: BackendName) -> Seq<char>;

    fn to_query(&self, bn: &BackendName) -> (r: String)
        requires
            self.fits(),
        ensures
            r@ == self.query_spec(*bn),
    ;
}

/// A `VALUES(...)` clause: `self.0` placeholders numbered from `self.1`.
pub struct SqlxValues(pub u8, pub u8);

impl ToQuery for SqlxValues {
    open spec fn fits(&self) -> bool {
        self.0 + self.1 <= 256
    }

    open spec fn query_spec(&self, bn: BackendName) -> Seq<char> {
        seq!['V', 'A', 'L', 'U', 'E', 'S', '('] + placeholder_list(bn, self.0 as nat, self.1 as nat)
            + seq![')']
    }

    fn to_query(&self, bn: &BackendName) -> (r: String) {
        let count = self.0;
        let start = self.1;
        let mut list = String::new();
        let mut i: u8 = 0;
        while i < count
            invariant
                count as nat + start as nat <= 256,
                i <= count,
                list@ == placeholder_list(*bn, i as nat, start as nat),
            decreases count - i,
        {
            let ph = bn.to_query(i + start);
            if i == 0 {
                list = ph;
            } else {
                proof {
                    reveal_strlit(", ");
                }
                list = joined(joined(list, ", "), ph.as_str());
                assert(", "@ =~= seq![',', ' ']);
            }
            i = i + 1;
        }
        proof {
            reveal_strlit("VALUES(");
            reveal_strlit(")");
        }
        let r = joined(joined(owned("VALUES("), list.as_str()), ")");
        assert("VALUES("@ =~= seq!['V', 'A', 'L', 'U', 'E', 'S', '(']);
        assert(")"@ =~= seq![')']);
        r
    }
}

/// The assignments of an `UPDATE`: `col = <placeholder>` for each column, placeholders
/// numbered from `offset`.
pub struct SqlxSetters {
    items: Vec<String>,
    offset: u8,
}

impl SqlxSetters {
    /// The columns assigned, in order.
    pub closed spec fn columns(&self) -> Seq<Seq<char>> {
        strings_view(self.items@)
    }

    /// The index of the first placeholder.
    pub closed spec fn first_index(&self) -> u8 {
        self.offset
    }

    /// Assignments of the single column `col`.
    pub fn new(col: &str, offset: u8) -> (r: SqlxSetters)
        ensures
            r.columns() == seq![col@],
            r.first_index() == offset,
    {
        let mut items: Vec<String> = Vec::new();
        items.push(owned(col));
        let r = SqlxSetters { items, offset };
        assert(r.columns() =~= seq![col@]);
        r
    }

    /// The assignments with column `col` appended.
    pub fn add(self, col: &str) -> (r: SqlxSetters)
        ensures
            r.columns() == self.columns().push(col@),
            r.first_index() == self.first_index(),
    {
        let mut items = self.items;
        let ghost before = strings_view(items@);
        items.push(owned(col));
        let r = SqlxSetters { items, offset: self.offset };
        assert(r.columns() =~= before.push(col@));
        r
    }
}

impl ToQuery for SqlxSetters {
    open spec fn fits(&self) -> bool {
        self.first_index() + self.columns().len() <= 256
    }

    open spec fn query_spec(&self, bn: BackendName) -> Seq<char> {
        setter_list(self.columns(), bn, self.first_index() as nat)
    }

    fn to_query(&self, bn: &BackendName) -> (r: String) {
        let ghost cols = strings_view(self.items@);
        let n = self.items.len();
        let start = self.offset;
        let mut out = String::new();
        let mut i: usize = 0;
        assert(cols.take(0) =~= Seq::<Seq<char>>::empty());
        while i < n
            invariant
                cols == strings_view(self.items@),
                n == cols.len(),
                start as nat + n <= 256,
                i <= n,
                out@ == setter_list(cols.take(i as int), *bn, start as nat),
            decreases n - i,
        {
            let idx: u8 = start + i as u8;
            assert(cols[i as int] == self.items@[i as int]@);
            let piece = column_query(self.items[i].as_str(), bn, idx);
            proof {
                let t = cols.take(i + 1);
                assert(t.drop_last() =~= cols.take(i as int));
                assert(t.last() == cols[i as int]);
                assert(t.len() == i + 1);
                if i == 0 {
                    assert(t[0] == cols[0]);
                }
            }
            if i == 0 {
                out = piece;
            } else {
                proof {
                    reveal_strlit(", ");
                }
                out = joined(joined(out, ", "), piece.as_str());
                assert(", "@ =~= seq![',', ' ']);
            }
            i = i + 1;
        }
        assert(cols.take(n as int) =~= cols);
        out
    }
}


/// Appending a column to a list of assignments appends `, col = <next placeholder>`
/// to its rendering.
pub proof fn lemma_setter_append(cols: Seq<Seq<char>>, col: Seq<char>, bn: BackendName, start: nat)
    requires
        cols.len() >= 1,
    ensures
        setter_list(cols.push(col), bn, start) == setter_list(cols, bn, start) + seq![',', ' ']
            + column_eq(col, bn, start + cols.len()),
{
    assert(cols.push(col).drop_last() =~= cols);
}

} // verus!
