//! The fingerprint database and the lines it is written in.

use vstd::prelude::*;
use vstd::slice::slice_subrange;
use crate::parse::http::{key_value_at, read_key_value};
use crate::parse::label::{label_of, read_label};
use crate::parse::{
    finish, list_at, list_rest, nonempty_list_at, or_fail_at, whole, ParseError, Step,
};
use crate::text::{
    char_is_blank, char_is_digit, chars_of, eat, eat_char, find, find_char, has_char, is_blank,
    is_digit, is_text, letters_of, mark_letters, number_at, read_number, starts_at, string_of,
    trim, trimmed,
};
use crate::{http, tcp, Label, LabelView};
use core::str::FromStr;

verus! {

/// The signatures of known systems and agents, as a database file lists them.
#[derive(Debug)]
pub struct Database {
    pub classes: Vec<String>,
    pub mtu: Vec<(String, Vec<u16>)>,
    pub ua_os: Vec<(String, Option<String>)>,
    pub tcp_request: Vec<(Label, Vec<tcp::Signature>)>,
    pub tcp_response: Vec<(Label, Vec<tcp::Signature>)>,
    pub http_request: Vec<(Label, Vec<http::Signature>)>,
    pub http_response: Vec<(Label, Vec<http::Signature>)>,
}

/// A database as a mathematical value.
pub struct DatabaseView {
    pub classes: Seq<Seq<char>>,
    pub mtu: Seq<(Seq<char>, Seq<u16>)>,
    pub ua_os: Seq<(Seq<char>, Option<Seq<char>>)>,
    pub tcp_request: Seq<(LabelView, Seq<tcp::SignatureView>)>,
    pub tcp_response: Seq<(LabelView, Seq<tcp::SignatureView>)>,
    pub http_request: Seq<(LabelView, Seq<http::SignatureView>)>,
    pub http_response: Seq<(LabelView, Seq<http::SignatureView>)>,
}

impl View for Database {
    type V = DatabaseView;

    open spec fn view(&self) -> DatabaseView {
        DatabaseView {
            classes: self.classes.deep_view(),
            mtu: self.mtu.deep_view(),
            ua_os: self.ua_os.deep_view(),
            tcp_request: self.tcp_request.deep_view(),
            tcp_response: self.tcp_response.deep_view(),
            http_request: self.http_request.deep_view(),
            http_response: self.http_response.deep_view(),
        }
    }
}

/// Whether every label of `table` has at least one signature.
pub open spec fn all_signed<L, S>(table: Seq<(L, Seq<S>)>) -> bool {
    forall|i: int| 0 <= i < table.len() ==> (#[trigger] table[i]).1.len() > 0
}

impl DatabaseView {
    /// Whether every label of the database has at least one signature.
    pub open spec fn complete(self) -> bool {
        &&& all_signed(self.mtu)
        &&& all_signed(self.tcp_request)
        &&& all_signed(self.tcp_response)
        &&& all_signed(self.http_request)
        &&& all_signed(self.http_response)
    }

    /// The database of an empty file.
    pub open spec fn empty() -> DatabaseView {
        DatabaseView {
            classes: Seq::empty(),
            mtu: Seq::empty(),
            ua_os: Seq::empty(),
            tcp_request: Seq::empty(),
            tcp_response: Seq::empty(),
            http_request: Seq::empty(),
            http_response: Seq::empty(),
        }
    }
}

/// The part of a database that a line belongs to, as the last `[module]` or
/// `[module:direction]` line before it says.
#[derive(Clone, Copy, Debug, PartialEq, Eq)]
pub enum Section {
    /// `[mtu]`, whatever direction it is given
    Mtu,
    /// `[tcp:request]`
    TcpRequest,
    /// `[tcp:response]`
    TcpResponse,
    /// `[http:request]`
    HttpRequest,
    /// `[http:response]`
    HttpResponse,
    /// any other module or direction: its lines are passed over
    Other,
}

/// What is wrong with a line. Offsets count the characters of the line
/// from its first that is no white space, and those in the fault of a value
/// from the first character of the value.
#[derive(Clone, Copy, Debug, PartialEq, Eq)]
pub enum Fault {
    /// a `classes` line that has no `=` at `offset`
    Classes { offset: usize },
    /// a `ua_os` line that has no `=` at `offset`, or no first entry there
    UaOs { offset: usize },
    /// a line in square brackets in which at `offset` no name stands, or
    /// after a name neither a direction nor the closing bracket
    Section { offset: usize },
    /// a line in a section that has no name at `offset`, or after its name
    /// no `=` there
    NamedValue { offset: usize },
    /// a `label` whose value is no label
    Label(ParseError),
    /// a `sig` whose value is no signature of its section's kind
    Signature(ParseError),
    /// a `sig` with no `label` before it in its part of the database
    Orphan,
    /// a line before the first section that is none of the above
    Outside,
}

/// Why a text is no database.
#[derive(Clone, Copy, Debug, PartialEq, Eq)]
pub enum LoadError {
    /// The line with this number, counted from 1, has this fault.
    Line { number: usize, fault: Fault },
    /// Some label is followed by no signature.
    Unsigned,
}

/// The position just past the run of blanks that begins at `i`.
pub open spec fn blanks_end(s: Seq<char>, i: int) -> int
    decreases s.len() - i,
{
    if 0 <= i < s.len() && is_blank(s[i]) {
        blanks_end(s, i + 1)
    } else {
        i
    }
}

/// Whether the character at `i` may stand in a word: a letter, as `alpha`
/// marks it, or a decimal digit.
pub open spec fn is_word_char(s: Seq<char>, alpha: Seq<bool>, i: int) -> bool {
    0 <= i < s.len() && i < alpha.len() && (alpha[i] || is_digit(s[i]))
}

/// The position just past the run of word characters that begins at `i`.
pub open spec fn word_end(s: Seq<char>, alpha: Seq<bool>, i: int) -> int
    decreases s.len() - i,
{
    if is_word_char(s, alpha, i) {
        word_end(s, alpha, i + 1)
    } else {
        i
    }
}

/// The position just past the run of letters that begins at `i`.
pub open spec fn letters_end(alpha: Seq<bool>, i: int) -> int
    decreases alpha.len() - i,
{
    if 0 <= i < alpha.len() && alpha[i] {
        letters_end(alpha, i + 1)
    } else {
        i
    }
}

/// A word of at least one character at `i`.
pub open spec fn word_at(s: Seq<char>, alpha: Seq<bool>, i: int) -> Step<Seq<char>> {
    let j = word_end(s, alpha, i);
    if i < j {
        Some((s.subrange(i, j), j))
    } else {
        None
    }
}

/// The reading of one word, as a list element.
pub open spec fn word_elem(alpha: Seq<bool>) -> spec_fn(Seq<char>, int) -> Step<Seq<char>> {
    |s: Seq<char>, i: int| word_at(s, alpha, i)
}

/// The position after `=` and the blanks around it, where they stand at
/// `i`; else the position at which `=` is missing.
pub open spec fn equals_at(s: Seq<char>, i: int) -> Result<int, int> {
    let j = blanks_end(s, i);
    if has_char(s, j, '=') {
        Ok(blanks_end(s, j + 1))
    } else {
        Err(j)
    }
}

/// The class names of a line that begins with `classes`: after `=`, a list
/// of words. What follows the list is passed over.
pub open spec fn classes_in(line: Seq<char>, alpha: Seq<bool>) -> Result<Seq<Seq<char>>, int> {
    match equals_at(line, 7) {
        Ok(i) => match list_at(word_elem(alpha), line, i) {
            Some((names, _)) => Ok(names),
            None => Err(i),
        },
        Err(at) => Err(at),
    }
}

/// The reading of one `name` or `name=[os]`, as a list element.
pub open spec fn ua_os_elem() -> spec_fn(Seq<char>, int) -> Step<(Seq<char>, Option<Seq<char>>)> {
    |s: Seq<char>, i: int|
        {
            let (name, os, j) = key_value_at(s, i);
            Some(((name, os), j))
        }
}

/// The entries of a line that begins with `ua_os`: after `=`, a list of at
/// least one `name` or `name=[os]`. What follows the list is passed over.
pub open spec fn ua_os_in(line: Seq<char>) -> Result<Seq<(Seq<char>, Option<Seq<char>>)>, int> {
    match equals_at(line, 5) {
        Ok(i) => match list_at(ua_os_elem(), line, i) {
            Some((entries, _)) => Ok(entries),
            None => Err(i),
        },
        Err(at) => Err(at),
    }
}

/// The section that a module and a direction name.
pub open spec fn section_of(module: Seq<char>, direction: Option<Seq<char>>) -> Section {
    if module == "mtu"@ {
        Section::Mtu
    } else if module == "tcp"@ && direction == Some("request"@) {
        Section::TcpRequest
    } else if module == "tcp"@ && direction == Some("response"@) {
        Section::TcpResponse
    } else if module == "http"@ && direction == Some("request"@) {
        Section::HttpRequest
    } else if module == "http"@ && direction == Some("response"@) {
        Section::HttpResponse
    } else {
        Section::Other
    }
}

/// The section that a line in square brackets opens: `[module]` or
/// `[module:direction]`, each name a run of at least one letter. What
/// follows the closing bracket is passed over.
pub open spec fn section_in(line: Seq<char>, alpha: Seq<bool>) -> Result<Section, int> {
    let a = letters_end(alpha, 1);
    let b = letters_end(alpha, a + 1);
    if !has_char(line, 0, '[') {
        Err(0)
    } else if !(1 < a <= line.len()) {
        Err(1)
    } else if has_char(line, a, ':') && a + 1 < b <= line.len() {
        if has_char(line, b, ']') {
            Ok(section_of(line.subrange(1, a), Some(line.subrange(a + 1, b))))
        } else {
            Err(b)
        }
    } else if has_char(line, a, ']') {
        Ok(section_of(line.subrange(1, a), None))
    } else {
        Err(a)
    }
}

/// A line `name = value`: the end of the name, a word that begins the line,
/// and the start of the value, which is the rest of the line.
pub open spec fn named_value_in(line: Seq<char>, alpha: Seq<bool>) -> Result<(int, int), int> {
    let j = word_end(line, alpha, 0);
    if 0 < j {
        match equals_at(line, j) {
            Ok(k) => Ok((j, k)),
            Err(at) => Err(at),
        }
    } else {
        Err(0)
    }
}

/// One MTU at `i`: a number of at most 65535, which a `+` may precede.
pub open spec fn mtu_at(s: Seq<char>, i: int) -> Step<u16> {
    match number_at(
        s,
        if has_char(s, i, '+') {
            i + 1
        } else {
            i
        },
        65535,
    ) {
        Some((n, j)) => Some((n as u16, j)),
        None => None,
    }
}

/// The reading of one MTU, as a list element.
pub open spec fn mtu_elem() -> spec_fn(Seq<char>, int) -> Step<u16> {
    |s: Seq<char>, i: int| mtu_at(s, i)
}

/// The MTUs that the whole of `value` lists, with commas between them.
pub open spec fn mtus_of(value: Seq<char>) -> Result<Seq<u16>, ParseError> {
    whole(or_fail_at(nonempty_list_at(mtu_elem(), value, 0), 0), value.len())
}

/// `table` with a new label at its end, which has no signature yet.
pub open spec fn opened<L, S>(table: Seq<(L, Seq<S>)>, label: L) -> Seq<(L, Seq<S>)> {
    table.push((label, Seq::empty()))
}

/// `table` with `sigs` added to the signatures of its last label.
pub open spec fn extended<L, S>(table: Seq<(L, Seq<S>)>, sigs: Seq<S>) -> Seq<(L, Seq<S>)>
    recommends
        table.len() > 0,
{
    table.drop_last().push((table.last().0, table.last().1 + sigs))
}

/// `table` after the line `label = value`.
pub open spec fn labelled<S>(table: Seq<(LabelView, Seq<S>)>, value: Seq<char>) -> Result<
    Seq<(LabelView, Seq<S>)>,
    Fault,
> {
    match label_of(value) {
        Ok(label) => Ok(opened(table, label)),
        Err(e) => Err(Fault::Label(e)),
    }
}

/// `table` after a line `sig = value` whose value reads as `sig`. The line
/// is an orphan where no label stands before it, whatever its value.
pub open spec fn signed<S>(
    table: Seq<(LabelView, Seq<S>)>,
    sig: Result<S, ParseError>,
) -> Result<Seq<(LabelView, Seq<S>)>, Fault> {
    if table.len() == 0 {
        Err(Fault::Orphan)
    } else {
        match sig {
            Ok(sig) => Ok(extended(table, seq![sig])),
            Err(e) => Err(Fault::Signature(e)),
        }
    }
}

/// The MTU table after a line `sig = value`.
pub open spec fn mtu_signed(table: Seq<(Seq<char>, Seq<u16>)>, value: Seq<char>) -> Result<
    Seq<(Seq<char>, Seq<u16>)>,
    Fault,
> {
    if table.len() == 0 {
        Err(Fault::Orphan)
    } else {
        match mtus_of(value) {
            Ok(list) => Ok(extended(table, list)),
            Err(e) => Err(Fault::Signature(e)),
        }
    }
}

/// The database after the line `name = value` in `section`. A `label` opens
/// a new entry in the section's table; in an MTU section its value is taken
/// as it stands. A `sig` adds to the last entry of that table. Lines of
/// other names, and all lines of other sections, change nothing.
pub open spec fn entered(db: DatabaseView, section: Section, name: Seq<char>, value: Seq<char>)
    -> Result<DatabaseView, Fault> {
    if name == "label"@ {
        match section {
            Section::Mtu => Ok(DatabaseView { mtu: opened(db.mtu, value), ..db }),
            Section::TcpRequest => match labelled(db.tcp_request, value) {
                Ok(t) => Ok(DatabaseView { tcp_request: t, ..db }),
                Err(f) => Err(f),
            },
            Section::TcpResponse => match labelled(db.tcp_response, value) {
                Ok(t) => Ok(DatabaseView { tcp_response: t, ..db }),
                Err(f) => Err(f),
            },
            Section::HttpRequest => match labelled(db.http_request, value) {
                Ok(t) => Ok(DatabaseView { http_request: t, ..db }),
                Err(f) => Err(f),
            },
            Section::HttpResponse => match labelled(db.http_response, value) {
                Ok(t) => Ok(DatabaseView { http_response: t, ..db }),
                Err(f) => Err(f),
            },
            Section::Other => Ok(db),
        }
    } else if name == "sig"@ {
        match section {
            Section::Mtu => match mtu_signed(db.mtu, value) {
                Ok(t) => Ok(DatabaseView { mtu: t, ..db }),
                Err(f) => Err(f),
            },
            Section::TcpRequest => match signed(
                db.tcp_request,
                crate::parse::tcp::signature_of(value),
            ) {
                Ok(t) => Ok(DatabaseView { tcp_request: t, ..db }),
                Err(f) => Err(f),
            },
            Section::TcpResponse => match signed(
                db.tcp_response,
                crate::parse::tcp::signature_of(value),
            ) {
                Ok(t) => Ok(DatabaseView { tcp_response: t, ..db }),
                Err(f) => Err(f),
            },
            Section::HttpRequest => match signed(
                db.http_request,
                crate::parse::http::signature_of(value),
            ) {
                Ok(t) => Ok(DatabaseView { http_request: t, ..db }),
                Err(f) => Err(f),
            },
            Section::HttpResponse => match signed(
                db.http_response,
                crate::parse::http::signature_of(value),
            ) {
                Ok(t) => Ok(DatabaseView { http_response: t, ..db }),
                Err(f) => Err(f),
            },
            Section::Other => Ok(db),
        }
    } else {
        Ok(db)
    }
}

/// What has been read of a database, and the section that is open.
pub struct Loading {
    pub db: DatabaseView,
    pub section: Option<Section>,
}

/// The state after one line, which comes without white space at its ends.
/// Empty lines and lines that begin with `;` say nothing. `alpha` marks the
/// letters of `line`.
pub open spec fn line_read(st: Loading, line: Seq<char>, alpha: Seq<bool>) -> Result<
    Loading,
    Fault,
> {
    if line.len() == 0 || line[0] == ';' {
        Ok(st)
    } else if starts_at(line, 0, "classes"@) {
        match classes_in(line, alpha) {
            Ok(names) => Ok(
                Loading { db: DatabaseView { classes: st.db.classes + names, ..st.db }, ..st },
            ),
            Err(at) => Err(Fault::Classes { offset: at as usize }),
        }
    } else if starts_at(line, 0, "ua_os"@) {
        match ua_os_in(line) {
            Ok(entries) => Ok(
                Loading { db: DatabaseView { ua_os: st.db.ua_os + entries, ..st.db }, ..st },
            ),
            Err(at) => Err(Fault::UaOs { offset: at as usize }),
        }
    } else if line[0] == '[' && line.last() == ']' {
        match section_in(line, alpha) {
            Ok(section) => Ok(Loading { section: Some(section), ..st }),
            Err(at) => Err(Fault::Section { offset: at as usize }),
        }
    } else {
        match st.section {
            Some(section) => match named_value_in(line, alpha) {
                Ok((j, k)) => match entered(
                    st.db,
                    section,
                    line.subrange(0, j),
                    line.subrange(k, line.len() as int),
                ) {
                    Ok(db) => Ok(Loading { db, ..st }),
                    Err(f) => Err(f),
                },
                Err(at) => Err(Fault::NamedValue { offset: at as usize }),
            },
            None => Err(Fault::Outside),
        }
    }
}

/// The state after the lines of `text` from position `pos` on, the first of
/// them being line `index`, counted from 0. Lines end at a line feed or at
/// the end of the text, and are read without the white space at their ends.
pub open spec fn lines_read(
    text: Seq<char>,
    alpha: Seq<bool>,
    pos: int,
    index: int,
    st: Loading,
) -> Result<Loading, LoadError>
    decreases text.len() - pos,
{
    if pos < 0 || pos > text.len() {
        Ok(st)
    } else {
        let end = find_char(text, pos, '\n');
        let (i, j) = trimmed(text.subrange(pos, end));
        match line_read(
            st,
            text.subrange(pos, end).subrange(i, j),
            alpha.subrange(pos, end).subrange(i, j),
        ) {
            Ok(next) => if pos <= end < text.len() {
                lines_read(text, alpha, end + 1, index + 1, next)
            } else {
                Ok(next)
            },
            Err(fault) => Err(LoadError::Line { number: (index + 1) as usize, fault }),
        }
    }
}

/// The database that `text` holds, where `alpha` marks its letters: what its
/// lines give, read in order from an empty database and no open section, if
/// each label of it then has a signature.
pub open spec fn loaded(text: Seq<char>, alpha: Seq<bool>) -> Result<DatabaseView, LoadError> {
    match lines_read(text, alpha, 0, 0, Loading { db: DatabaseView::empty(), section: None }) {
        Ok(st) => if st.db.complete() {
            Ok(st.db)
        } else {
            Err(LoadError::Unsigned)
        },
        Err(e) => Err(e),
    }
}

fn skip_blanks(line: &[char], pos: usize) -> (j: usize)
    requires
        pos <= line.len(),
    ensures
        j == blanks_end(line@, pos as int),
        pos <= j <= line.len(),
{
    let mut j: usize = pos;
    while j < line.len() && char_is_blank(line[j])
        invariant
            pos <= j <= line.len(),
            blanks_end(line@, pos as int) == blanks_end(line@, j as int),
        decreases line.len() - j,
    {
        j += 1;
    }
    j
}

fn read_equals(line: &[char], pos: usize) -> (r: Result<usize, usize>)
    requires
        pos <= line.len(),
    ensures
        match r {
            Ok(k) => equals_at(line@, pos as int) == Ok::<int, int>(k as int) && pos < k
                <= line.len(),
            Err(at) => equals_at(line@, pos as int) == Err::<int, int>(at as int) && at
                <= line.len(),
        },
{
    let j = skip_blanks(line, pos);
    if eat_char(line, j, '=') {
        Ok(skip_blanks(line, j + 1))
    } else {
        Err(j)
    }
}

fn read_word_end(line: &[char], alpha: &[bool], pos: usize) -> (j: usize)
    requires
        pos <= line.len(),
        alpha.len() == line.len(),
    ensures
        j == word_end(line@, alpha@, pos as int),
        pos <= j <= line.len(),
{
    let mut j: usize = pos;
    while j < line.len() && (alpha[j] || char_is_digit(line[j]))
        invariant
            pos <= j <= line.len(),
            alpha.len() == line.len(),
            word_end(line@, alpha@, pos as int) == word_end(line@, alpha@, j as int),
        decreases line.len() - j,
    {
        j += 1;
    }
    j
}

fn read_letters_end(alpha: &[bool], pos: usize) -> (j: usize)
    requires
        pos <= alpha.len(),
    ensures
        j == letters_end(alpha@, pos as int),
        pos <= j <= alpha.len(),
{
    let mut j: usize = pos;
    while j < alpha.len() && alpha[j]
        invariant
            pos <= j <= alpha.len(),
            letters_end(alpha@, pos as int) == letters_end(alpha@, j as int),
        decreases alpha.len() - j,
    {
        j += 1;
    }
    j
}

fn read_classes(line: &[char], alpha: &[bool]) -> (r: Result<Vec<String>, usize>)
    requires
        alpha.len() == line.len(),
        starts_at(line@, 0, "classes"@),
    ensures
        match r {
            Ok(names) => classes_in(line@, alpha@) == Ok::<Seq<Seq<char>>, int>(
                names.deep_view(),
            ),
            Err(at) => classes_in(line@, alpha@) == Err::<Seq<Seq<char>>, int>(at as int),
        },
{
    proof {
        reveal_strlit("classes");
    }
    let start = match read_equals(line, 7) {
        Ok(i) => i,
        Err(at) => { return Err(at); },
    };
    let mut names: Vec<String> = Vec::new();
    let first_end = read_word_end(line, alpha, start);
    if first_end == start {
        assert(names.deep_view() =~= Seq::<Seq<char>>::empty());
        return Ok(names);
    }
    names.push(string_of(slice_subrange(line, start, first_end)));
    let ghost head = line@.subrange(start as int, first_end as int);
    assert(names.deep_view() =~= seq![head]);
    let mut cur: usize = first_end;
    let mut open: bool = true;
    while open
        invariant
            cur <= line.len(),
            alpha.len() == line.len(),
            list_rest(word_elem(alpha@), line@, first_end as int, seq![head]) == list_rest(
                word_elem(alpha@),
                line@,
                cur as int,
                names.deep_view(),
            ),
            !open ==> list_rest(word_elem(alpha@), line@, cur as int, names.deep_view()).0
                == names.deep_view(),
        decreases line.len() - cur + if open { 1int } else { 0int },
    {
        if eat_char(line, cur, ',') {
            let j = read_word_end(line, alpha, cur + 1);
            if j > cur + 1 {
                let ghost before = names.deep_view();
                names.push(string_of(slice_subrange(line, cur + 1, j)));
                assert(names.deep_view() =~= before.push(line@.subrange(cur + 1, j as int)));
                cur = j;
            } else {
                open = false;
            }
        } else {
            open = false;
        }
    }
    Ok(names)
}

fn read_ua_os(line: &[char]) -> (r: Result<Vec<(String, Option<String>)>, usize>)
    requires
        starts_at(line@, 0, "ua_os"@),
    ensures
        match r {
            Ok(entries) => ua_os_in(line@) == Ok::<Seq<(Seq<char>, Option<Seq<char>>)>, int>(
                entries.deep_view(),
            ),
            Err(at) => ua_os_in(line@) == Err::<Seq<(Seq<char>, Option<Seq<char>>)>, int>(
                at as int,
            ),
        },
{
    proof {
        reveal_strlit("ua_os");
    }
    let start = match read_equals(line, 5) {
        Ok(i) => i,
        Err(at) => { return Err(at); },
    };
    let mut entries: Vec<(String, Option<String>)> = Vec::new();
    let (name, os, first_end) = read_key_value(line, start);
    if first_end == start {
        return Err(start);
    }
    let ghost head = (name@, crate::opt_view(os));
    entries.push((name, os));
    assert(entries.deep_view() =~= seq![head]);
    let mut cur: usize = first_end;
    let mut open: bool = true;
    while open
        invariant
            cur <= line.len(),
            list_rest(ua_os_elem(), line@, first_end as int, seq![head]) == list_rest(
                ua_os_elem(),
                line@,
                cur as int,
                entries.deep_view(),
            ),
            !open ==> list_rest(ua_os_elem(), line@, cur as int, entries.deep_view()).0
                == entries.deep_view(),
        decreases line.len() - cur + if open { 1int } else { 0int },
    {
        if eat_char(line, cur, ',') {
            let (name, os, j) = read_key_value(line, cur + 1);
            if j > cur + 1 {
                let ghost before = entries.deep_view();
                let ghost entry = (name@, crate::opt_view(os));
                entries.push((name, os));
                assert(entries.deep_view() =~= before.push(entry));
                cur = j;
            } else {
                open = false;
            }
        } else {
            open = false;
        }
    }
    Ok(entries)
}

fn section_named(line: &[char], a: usize, b: usize, direction: Option<(usize, usize)>) -> (r:
    Section)
    requires
        a <= b <= line.len(),
        match direction {
            Some((c, d)) => c <= d <= line.len(),
            None => true,
        },
    ensures
        r == section_of(
            line@.subrange(a as int, b as int),
            match direction {
                Some((c, d)) => Some(line@.subrange(c as int, d as int)),
                None => None,
            },
        ),
{
    if is_text(line, a, b, "mtu") {
        return Section::Mtu;
    }
    let (c, d) = match direction {
        Some(x) => x,
        None => { return Section::Other; },
    };
    let tcp = is_text(line, a, b, "tcp");
    let http = is_text(line, a, b, "http");
    let request = is_text(line, c, d, "request");
    let response = is_text(line, c, d, "response");
    if tcp && request {
        Section::TcpRequest
    } else if tcp && response {
        Section::TcpResponse
    } else if http && request {
        Section::HttpRequest
    } else if http && response {
        Section::HttpResponse
    } else {
        Section::Other
    }
}

fn read_section(line: &[char], alpha: &[bool]) -> (r: Result<Section, usize>)
    requires
        alpha.len() == line.len(),
        has_char(line@, 0, '['),
    ensures
        match r {
            Ok(section) => section_in(line@, alpha@) == Ok::<Section, int>(section),
            Err(at) => section_in(line@, alpha@) == Err::<Section, int>(at as int),
        },
{
    let a = read_letters_end(alpha, 1);
    if a == 1 {
        return Err(1);
    }
    if eat_char(line, a, ':') {
        let b = read_letters_end(alpha, a + 1);
        if b > a + 1 {
            return if eat_char(line, b, ']') {
                Ok(section_named(line, 1, a, Some((a + 1, b))))
            } else {
                Err(b)
            };
        }
    }
    if eat_char(line, a, ']') {
        Ok(section_named(line, 1, a, None))
    } else {
        Err(a)
    }
}

fn read_named_value(line: &[char], alpha: &[bool]) -> (r: Result<(usize, usize), usize>)
    requires
        alpha.len() == line.len(),
    ensures
        match r {
            Ok((j, k)) => named_value_in(line@, alpha@) == Ok::<(int, int), int>(
                (j as int, k as int),
            ) && j <= k <= line.len(),
            Err(at) => named_value_in(line@, alpha@) == Err::<(int, int), int>(at as int),
        },
{
    let j = read_word_end(line, alpha, 0);
    if j == 0 {
        return Err(0);
    }
    match read_equals(line, j) {
        Ok(k) => Ok((j, k)),
        Err(at) => Err(at),
    }
}

fn read_mtu(value: &[char], pos: usize) -> (r: Option<(u16, usize)>)
    requires
        pos <= value.len(),
    ensures
        crate::parse::reads(r, mtu_at(value@, pos as int), value@),
        r is Some ==> pos < r.unwrap().1,
{
    let start = if eat_char(value, pos, '+') {
        pos + 1
    } else {
        pos
    };
    read_number(value, start, 65535)
}

fn read_mtus(value: &[char]) -> (r: Result<Vec<u16>, ParseError>)
    ensures
        match r {
            Ok(list) => mtus_of(value@) == Ok::<Seq<u16>, ParseError>(list@),
            Err(e) => mtus_of(value@) == Err::<Seq<u16>, ParseError>(e),
        },
{
    let (first, first_end) = match read_mtu(value, 0) {
        Some(x) => x,
        None => { return Err(ParseError::Malformed { offset: 0 }); },
    };
    let mut list: Vec<u16> = Vec::new();
    list.push(first);
    let mut cur: usize = first_end;
    let mut open: bool = true;
    while open
        invariant
            cur <= value.len(),
            list_rest(mtu_elem(), value@, first_end as int, seq![first]) == list_rest(
                mtu_elem(),
                value@,
                cur as int,
                list@,
            ),
            !open ==> list_rest(mtu_elem(), value@, cur as int, list@) == (list@, cur as int),
        decreases value.len() - cur + if open { 1int } else { 0int },
    {
        if eat_char(value, cur, ',') {
            match read_mtu(value, cur + 1) {
                Some((n, j)) => {
                    list.push(n);
                    cur = j;
                },
                None => {
                    open = false;
                },
            }
        } else {
            open = false;
        }
    }
    if cur == value.len() {
        Ok(list)
    } else {
        Err(ParseError::Trailing { offset: cur })
    }
}

/// Opens a new entry of `table` for the label that `value` is the text of.
fn open_label<S: DeepView>(table: &mut Vec<(Label, Vec<S>)>, value: &[char]) -> (r: Result<
    (),
    Fault,
>)
    ensures
        match r {
            Ok(()) => labelled(old(table).deep_view(), value@) == Ok::<
                Seq<(LabelView, Seq<S::V>)>,
                Fault,
            >(final(table).deep_view()),
            Err(f) => labelled(old(table).deep_view(), value@) == Err::<
                Seq<(LabelView, Seq<S::V>)>,
                Fault,
            >(f),
        },
{
    match finish(read_label(value, 0), value.len()) {
        Ok(label) => {
            let ghost before = table.deep_view();
            let ghost lv = label@;
            let sigs: Vec<S> = Vec::new();
            assert(sigs.deep_view() =~= Seq::<S::V>::empty());
            table.push((label, sigs));
            assert(table.deep_view() =~= opened(before, lv));
            Ok(())
        },
        Err(e) => Err(Fault::Label(e)),
    }
}

/// Adds `sigs` to the last entry of `table`.
fn extend_last<L: DeepView, S: DeepView>(table: &mut Vec<(L, Vec<S>)>, sigs: Vec<S>)
    requires
        old(table).len() > 0,
    ensures
        final(table).deep_view() == extended(old(table).deep_view(), sigs.deep_view()),
{
    let ghost before = table.deep_view();
    let (label, mut all) = table.pop().unwrap();
    let ghost rest = table.deep_view();
    assert(rest =~= before.drop_last());
    assert((label.deep_view(), all.deep_view()) == before.last());
    let ghost had = all@;
    let ghost more = sigs@;
    let ghost more_deep = sigs.deep_view();
    let mut sigs = sigs;
    all.append(&mut sigs);
    assert(all@ == had + more);
    assert(all.deep_view() =~= before.last().1 + more_deep) by {
        assert(before.last().1.len() == had.len());
        assert forall|i: int| 0 <= i < had.len() implies all.deep_view()[i]
            == before.last().1[i] by {
            assert(all@[i] == had[i]);
        }
        assert forall|i: int| had.len() <= i < all.len() implies all.deep_view()[i] == more_deep[i
            - had.len()] by {
            assert(all@[i] == more[i - had.len()]);
        }
    }
    let ghost lv = label.deep_view();
    let ghost av = all.deep_view();
    table.push((label, all));
    assert(table.deep_view() =~= rest.push((lv, av)));
}

/// Adds the TCP signature that `value` is the text of to the last entry of
/// `table`.
fn add_tcp_signature(table: &mut Vec<(Label, Vec<tcp::Signature>)>, value: &[char]) -> (r: Result<
    (),
    Fault,
>)
    ensures
        match r {
            Ok(()) => signed(old(table).deep_view(), crate::parse::tcp::signature_of(value@))
                == Ok::<Seq<(LabelView, Seq<tcp::SignatureView>)>, Fault>(
                final(table).deep_view(),
            ),
            Err(f) => signed(old(table).deep_view(), crate::parse::tcp::signature_of(value@))
                == Err::<Seq<(LabelView, Seq<tcp::SignatureView>)>, Fault>(f),
        },
{
    if table.len() == 0 {
        return Err(Fault::Orphan);
    }
    match finish(crate::parse::tcp::read_signature(value, 0), value.len()) {
        Ok(sig) => {
            let ghost sv = sig@;
            let mut sigs: Vec<tcp::Signature> = Vec::new();
            sigs.push(sig);
            assert(sigs.deep_view() =~= seq![sv]);
            extend_last(table, sigs);
            Ok(())
        },
        Err(e) => Err(Fault::Signature(e)),
    }
}

/// Adds the HTTP signature that `value` is the text of to the last entry of
/// `table`.
fn add_http_signature(table: &mut Vec<(Label, Vec<http::Signature>)>, value: &[char]) -> (r:
    Result<(), Fault>)
    ensures
        match r {
            Ok(()) => signed(old(table).deep_view(), crate::parse::http::signature_of(value@))
                == Ok::<Seq<(LabelView, Seq<http::SignatureView>)>, Fault>(
                final(table).deep_view(),
            ),
            Err(f) => signed(old(table).deep_view(), crate::parse::http::signature_of(value@))
                == Err::<Seq<(LabelView, Seq<http::SignatureView>)>, Fault>(f),
        },
{
    if table.len() == 0 {
        return Err(Fault::Orphan);
    }
    match finish(crate::parse::http::read_signature(value, 0), value.len()) {
        Ok(sig) => {
            let ghost sv = sig@;
            let mut sigs: Vec<http::Signature> = Vec::new();
            sigs.push(sig);
            assert(sigs.deep_view() =~= seq![sv]);
            extend_last(table, sigs);
            Ok(())
        },
        Err(e) => Err(Fault::Signature(e)),
    }
}

/// Adds the MTUs that `value` lists to the last entry of `table`.
fn add_mtus(table: &mut Vec<(String, Vec<u16>)>, value: &[char]) -> (r: Result<(), Fault>)
    ensures
        match r {
            Ok(()) => mtu_signed(old(table).deep_view(), value@) == Ok::<
                Seq<(Seq<char>, Seq<u16>)>,
                Fault,
            >(final(table).deep_view()),
            Err(f) => mtu_signed(old(table).deep_view(), value@) == Err::<
                Seq<(Seq<char>, Seq<u16>)>,
                Fault,
            >(f),
        },
{
    if table.len() == 0 {
        return Err(Fault::Orphan);
    }
    match read_mtus(value) {
        Ok(list) => {
            assert(list.deep_view() =~= list@);
            extend_last(table, list);
            Ok(())
        },
        Err(e) => Err(Fault::Signature(e)),
    }
}

/// Takes in the line `name = value`, whose name ends at `j` and whose value
/// begins at `k`.
fn enter(db: &mut Database, section: Section, line: &[char], j: usize, k: usize) -> (r: Result<
    (),
    Fault,
>)
    requires
        j <= k <= line.len(),
    ensures
        match r {
            Ok(()) => entered(
                old(db)@,
                section,
                line@.subrange(0, j as int),
                line@.subrange(k as int, line@.len() as int),
            ) == Ok::<DatabaseView, Fault>(final(db)@),
            Err(f) => entered(
                old(db)@,
                section,
                line@.subrange(0, j as int),
                line@.subrange(k as int, line@.len() as int),
            ) == Err::<DatabaseView, Fault>(f),
        },
{
    let value = slice_subrange(line, k, line.len());
    if is_text(line, 0, j, "label") {
        match section {
            Section::Mtu => {
                let ghost before = db.mtu.deep_view();
                let none: Vec<u16> = Vec::new();
                assert(none.deep_view() =~= Seq::<u16>::empty());
                db.mtu.push((string_of(value), none));
                assert(db.mtu.deep_view() =~= opened(before, value@));
                Ok(())
            },
            Section::TcpRequest => open_label(&mut db.tcp_request, value),
            Section::TcpResponse => open_label(&mut db.tcp_response, value),
            Section::HttpRequest => open_label(&mut db.http_request, value),
            Section::HttpResponse => open_label(&mut db.http_response, value),
            Section::Other => Ok(()),
        }
    } else if is_text(line, 0, j, "sig") {
        match section {
            Section::Mtu => add_mtus(&mut db.mtu, value),
            Section::TcpRequest => add_tcp_signature(&mut db.tcp_request, value),
            Section::TcpResponse => add_tcp_signature(&mut db.tcp_response, value),
            Section::HttpRequest => add_http_signature(&mut db.http_request, value),
            Section::HttpResponse => add_http_signature(&mut db.http_response, value),
            Section::Other => Ok(()),
        }
    } else {
        Ok(())
    }
}

/// Takes in one line, which comes without white space at its ends.
fn read_line(db: &mut Database, section: &mut Option<Section>, line: &[char], alpha: &[bool]) -> (r:
    Result<(), Fault>)
    requires
        alpha.len() == line.len(),
    ensures
        match r {
            Ok(()) => line_read(
                Loading { db: old(db)@, section: *old(section) },
                line@,
                alpha@,
            ) == Ok::<Loading, Fault>(Loading { db: final(db)@, section: *final(section) }),
            Err(f) => line_read(
                Loading { db: old(db)@, section: *old(section) },
                line@,
                alpha@,
            ) == Err::<Loading, Fault>(f) && line.len() > 0,
        },
{
    if line.len() == 0 || line[0] == ';' {
        return Ok(());
    }
    if eat(line, 0, "classes") {
        match read_classes(line, alpha) {
            Ok(names) => {
                let ghost before = db.classes.deep_view();
                let ghost added = names.deep_view();
                let mut names = names;
                db.classes.append(&mut names);
                assert(db.classes.deep_view() =~= before + added);
                Ok(())
            },
            Err(offset) => Err(Fault::Classes { offset }),
        }
    } else if eat(line, 0, "ua_os") {
        match read_ua_os(line) {
            Ok(entries) => {
                let ghost before = db.ua_os.deep_view();
                let ghost added = entries.deep_view();
                let mut entries = entries;
                db.ua_os.append(&mut entries);
                assert(db.ua_os.deep_view() =~= before + added);
                Ok(())
            },
            Err(offset) => Err(Fault::UaOs { offset }),
        }
    } else if line[0] == '[' && line[line.len() - 1] == ']' {
        match read_section(line, alpha) {
            Ok(s) => {
                *section = Some(s);
                Ok(())
            },
            Err(offset) => Err(Fault::Section { offset }),
        }
    } else {
        match *section {
            Some(s) => match read_named_value(line, alpha) {
                Ok((j, k)) => enter(db, s, line, j, k),
                Err(offset) => Err(Fault::NamedValue { offset }),
            },
            None => Err(Fault::Outside),
        }
    }
}

/// Whether every label of `table` has a signature.
fn is_signed<L: DeepView, S: DeepView>(table: &Vec<(L, Vec<S>)>) -> (r: bool)
    ensures
        r == all_signed(table.deep_view()),
{
    let mut i: usize = 0;
    while i < table.len()
        invariant
            i <= table.len(),
            forall|k: int| 0 <= k < i ==> (#[trigger] table.deep_view()[k]).1.len() > 0,
        decreases table.len() - i,
    {
        if table[i].1.len() == 0 {
            assert(table.deep_view()[i as int].1.len() == 0);
            return false;
        }
        assert(table.deep_view()[i as int].1.len() == table@[i as int].1.len());
        i += 1;
    }
    true
}

impl Database {
    /// A database without entries.
    pub fn new() -> (db: Database)
        ensures
            db@ == DatabaseView::empty(),
    {
        let db = Database {
            classes: Vec::new(),
            mtu: Vec::new(),
            ua_os: Vec::new(),
            tcp_request: Vec::new(),
            tcp_response: Vec::new(),
            http_request: Vec::new(),
            http_response: Vec::new(),
        };
        assert(db@.classes =~= Seq::empty());
        assert(db@.mtu =~= Seq::empty());
        assert(db@.ua_os =~= Seq::empty());
        assert(db@.tcp_request =~= Seq::empty());
        assert(db@.tcp_response =~= Seq::empty());
        assert(db@.http_request =~= Seq::empty());
        assert(db@.http_response =~= Seq::empty());
        db
    }

    /// Whether every label has at least one signature.
    pub fn is_complete(&self) -> (r: bool)
        ensures
            r == self@.complete(),
    {
        is_signed(&self.mtu) && is_signed(&self.tcp_request) && is_signed(&self.tcp_response)
            && is_signed(&self.http_request) && is_signed(&self.http_response)
    }

    /// Reads the database that `text` holds, where `alpha` tells of each
    /// character of `text` whether it is a letter, as `mark_letters` does.
    /// Lines that a section has no use for are passed over in silence.
    pub fn load(text: &[char], alpha: &[bool]) -> (r: Result<Database, LoadError>)
        requires
            alpha.len() == text.len(),
        ensures
            match r {
                Ok(db) => loaded(text@, alpha@) == Ok::<DatabaseView, LoadError>(db@)
                    && db@.complete(),
                Err(e) => loaded(text@, alpha@) == Err::<DatabaseView, LoadError>(e),
            },
    {
        let mut db = Database::new();
        let mut section: Option<Section> = None;
        let mut pos: usize = 0;
        let mut index: usize = 0;
        let ghost start = Loading { db: DatabaseView::empty(), section: None };
        loop
            invariant_except_break
                index <= pos <= text.len(),
                alpha.len() == text.len(),
                start == (Loading { db: DatabaseView::empty(), section: None }),
                lines_read(text@, alpha@, 0, 0, start) == lines_read(
                    text@,
                    alpha@,
                    pos as int,
                    index as int,
                    Loading { db: db@, section },
                ),
            ensures
                lines_read(text@, alpha@, 0, 0, start) == Ok::<Loading, LoadError>(
                    Loading { db: db@, section },
                ),
            decreases text.len() - pos,
        {
            let end = find(text, pos, '\n');
            let raw = slice_subrange(text, pos, end);
            let (i, j) = trim(raw);
            let line = slice_subrange(raw, i, j);
            let marks = slice_subrange(slice_subrange(alpha, pos, end), i, j);
            match read_line(&mut db, &mut section, line, marks) {
                Ok(()) => {},
                Err(fault) => {
                    return Err(LoadError::Line { number: index + 1, fault });
                },
            }
            if end < text.len() {
                pos = end + 1;
                index = index + 1;
            } else {
                break ;
            }
        }
        if db.is_complete() {
            Ok(db)
        } else {
            Err(LoadError::Unsigned)
        }
    }
}

/// The database that the text `s` holds.
pub open spec fn database_of(s: Seq<char>) -> Result<DatabaseView, LoadError> {
    loaded(s, letters_of(s))
}

impl FromStr for Database {
    type Err = LoadError;

    fn from_str(s: &str) -> (r: Result<Database, LoadError>)
        ensures
            match r {
                Ok(db) => database_of(s@) == Ok::<DatabaseView, LoadError>(db@) && db@.complete(),
                Err(e) => database_of(s@) == Err::<DatabaseView, LoadError>(e),
            },
    {
        let text = chars_of(s);
        let alpha = mark_letters(&text);
        Database::load(&text, &alpha)
    }
}

} // verus!
