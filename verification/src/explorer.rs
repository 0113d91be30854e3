//! The file explorer sidebar.
//!
//! Reading directories and touching files is the caller's business. What to list, in
//! what order, what a key or a click means, and what a prompt asks for is decided here.
//!
//! Three of the actions hand a path to a running shell. A file name may contain a
//! quote, a semicolon or `$(...)`, so every path goes through [`shell_quote`].

use vstd::prelude::*;
use vstd::string::*;

use crate::decimal::{digits_of, push_digits};
use crate::paths::{file_name, is_same_path, join, parent};
use crate::strings::{chars_of, slice_text, text_less, to_lowercase, trim};
use crate::ui::{Ui, UiModel};
use crate::widget::{EntryKind, Widget, WidgetId, WidgetModel};

verus! {

/// Largest directory that is listed.
///
/// A limit on latency: every row is built anew each frame. The overflow is reported
/// rather than silently dropped.
pub const MAX_ENTRIES: usize = 5000;

/// Row ids are positional: a file list has no stable identity to key on, so focus is
/// meant to reset when the directory does.
pub const ROW_ID_BASE: u32 = 1000;

/// The id of the prompt's field.
pub const PROMPT_ID: u32 = 1;

/// One row.
#[derive(Debug, PartialEq, Eq)]
pub struct Entry {
    pub name: String,
    pub path: String,
    pub kind: EntryKind,
    /// Size in bytes for a file; entry count for a directory. `None` when unreadable.
    pub size: Option<u64>,
}

/// A row as a mathematical value.
#[verifier::ext_equal]
pub struct EntryModel {
    pub name: Seq<char>,
    pub path: Seq<char>,
    pub kind: EntryKind,
    pub size: Option<u64>,
}

impl View for Entry {
    type V = EntryModel;

    open spec fn view(&self) -> EntryModel {
        EntryModel { name: self.name@, path: self.path@, kind: self.kind, size: self.size }
    }
}

impl EntryModel {
    /// The views of a list of rows.
    pub open spec fn all(list: Seq<Entry>) -> Seq<EntryModel> {
        Seq::new(list.len(), |i: int| list[i]@)
    }
}

// --- sizes --------------------------------------------------------------------------

/// `2` to the power `n`.
pub open spec fn pow2(n: nat) -> nat
    decreases n,
{
    if n == 0 {
        1
    } else {
        2 * pow2((n - 1) as nat)
    }
}

/// `n` with its significant bits beyond the 53rd rounded away, ties to even, for
/// numbers of at most `53 + k` bits.
pub open spec fn significant(n: nat, k: nat) -> nat
    decreases 64 - k,
{
    if k >= 11 || n < pow2(53 + k) {
        crate::decimal::half_even(n, pow2(k)) * pow2(k)
    } else {
        significant(n, k + 1)
    }
}

/// Which unit a size is shown in: the largest that leaves at least one, up to the last.
pub open spec fn unit_of(size: nat) -> nat {
    if size < 1024 {
        0
    } else if size < 1024 * 1024 {
        1
    } else if size < 1024 * 1024 * 1024 {
        2
    } else if size < 1024 * 1024 * 1024 * 1024 {
        3
    } else {
        4
    }
}

pub open spec fn unit_bytes(unit: nat) -> nat {
    if unit == 0 {
        1
    } else if unit == 1 {
        1024
    } else if unit == 2 {
        1024 * 1024
    } else if unit == 3 {
        1024 * 1024 * 1024
    } else {
        1024 * 1024 * 1024 * 1024
    }
}

pub open spec fn unit_letter(unit: nat) -> char {
    if unit == 0 {
        'B'
    } else if unit == 1 {
        'K'
    } else if unit == 2 {
        'M'
    } else if unit == 3 {
        'G'
    } else {
        'T'
    }
}

/// A byte count at a glance: whole bytes, one decimal below ten units, and otherwise
/// whole units, rounded to the nearest and ties to even.
pub open spec fn size_text(bytes: u64) -> Seq<char> {
    let size = significant(bytes as nat, 0);
    let unit = unit_of(size);
    let scale = unit_bytes(unit);
    if unit == 0 {
        crate::decimal::digits(bytes as nat).push('B')
    } else if size < 10 * scale {
        let tenths = crate::decimal::half_even(10 * size, scale);
        crate::decimal::digits(tenths / 10).push('.').push(
            crate::decimal::digit(tenths % 10),
        ).push(unit_letter(unit))
    } else {
        crate::decimal::digits(crate::decimal::half_even(size, scale)).push(unit_letter(unit))
    }
}

fn round_half_even(a: u128, scale: u128) -> (q: u128)
    requires
        0 < scale <= 0x1_0000_0000_0000,
        a <= 0xffff_ffff_ffff_ffff_ffff,
    ensures
        q == crate::decimal::half_even(a as nat, scale as nat),
        q <= a / scale + 1,
{
    let q: u128 = a / scale;
    let r: u128 = a % scale;
    proof {
        assert(q <= a) by (nonlinear_arith)
            requires
                q == a / scale,
                scale > 0,
        ;
    }
    if 2 * r > scale || (2 * r == scale && q % 2 == 1) {
        q + 1
    } else {
        q
    }
}

/// `bytes` with its bits beyond the 53rd rounded away.
fn significant_bits(bytes: u64) -> (size: u128)
    ensures
        size == significant(bytes as nat, 0),
        size <= 0x2_0000_0000_0000_0000,
{
    let mut k: u32 = 0;
    let mut low: u128 = 1;
    let mut high: u128 = 0x20_0000_0000_0000;
    proof {
        reveal_with_fuel(pow2, 65);
    }
    while k < 11 && bytes as u128 >= high
        invariant
            k <= 11,
            low == pow2(k as nat),
            high == pow2((53 + k) as nat),
            1 <= low <= 2048,
            k == 11 ==> low == 2048,
            high == low * 0x20_0000_0000_0000,
            significant(bytes as nat, 0) == significant(bytes as nat, k as nat),
        decreases 11 - k,
    {
        proof {
            assert(low <= 1024) by {
                reveal_with_fuel(pow2, 12);
            }
        }
        low = low * 2;
        high = high * 2;
        k += 1;
        proof {
            reveal_with_fuel(pow2, 12);
        }
    }
    let q: u128 = round_half_even(bytes as u128, low);
    proof {
        let a = bytes as int;
        let s = low as int;
        vstd::arithmetic::div_mod::lemma_fundamental_div_mod(a, s);
        vstd::arithmetic::div_mod::lemma_mod_bound(a, s);
        assert(q * s <= a + s) by (nonlinear_arith)
            requires
                q <= a / s + 1,
                a == s * (a / s) + a % s,
                a % s >= 0,
                s >= 1,
        ;
        assert(q * s >= 0) by (nonlinear_arith)
            requires
                q >= 0,
                s >= 1,
        ;
    }
    q * low
}

/// A byte count at a glance.
pub fn human_size(bytes: u64) -> (text: String)
    ensures
        text@ == size_text(bytes),
{
    let size: u128 = significant_bits(bytes);
    if size < 1024 {
        let mut text = digits_of(bytes);
        text.push('B');
        return text;
    }
    let (scale, letter): (u128, char) = if size < 1024 * 1024 {
        (1024, 'K')
    } else if size < 1024 * 1024 * 1024 {
        (1024 * 1024, 'M')
    } else if size < 1024 * 1024 * 1024 * 1024 {
        (1024 * 1024 * 1024, 'G')
    } else {
        (1024 * 1024 * 1024 * 1024, 'T')
    };
    let mut text = String::new();
    if size < 10 * scale {
        let tenths: u128 = round_half_even(10 * size, scale);
        proof {
            assert(10 * size / scale as int <= 100) by (nonlinear_arith)
                requires
                    size < 10 * scale,
                    scale > 0,
            ;
        }
        push_digits(&mut text, (tenths / 10) as u64);
        text.push('.');
        push_digits(&mut text, (tenths % 10) as u64);
        text.push(letter);
        proof {
            let d = crate::decimal::digits((tenths % 10) as nat);
            assert(d =~= seq![crate::decimal::digit((tenths % 10) as nat)]);
            assert(text@ =~= size_text(bytes));
        }
    } else {
        let whole: u128 = round_half_even(size, scale);
        proof {
            assert(size / scale <= 0x1_0000_0000_0000) by (nonlinear_arith)
                requires
                    size <= 0x2_0000_0000_0000_0000,
                    scale >= 1024 * 1024 * 1024 * 1024 || size < 1024 * scale,
                    scale > 0,
            ;
        }
        push_digits(&mut text, whole as u64);
        text.push(letter);
        assert(text@ =~= size_text(bytes));
    }
    text
}

impl Entry {
    /// The dimmed right-hand column: nothing for the parent row and what could not be
    /// read, a count for a directory, a size for the rest.
    pub open spec fn detail_text(kind: EntryKind, size: Option<u64>) -> Seq<char> {
        match (kind, size) {
            (EntryKind::Parent, _) => Seq::empty(),
            (_, None) => Seq::empty(),
            (EntryKind::Directory, Some(n)) => crate::decimal::digits(n as nat),
            (_, Some(n)) => size_text(n),
        }
    }

    /// The dimmed right-hand column.
    pub fn detail(&self) -> (text: String)
        ensures
            text@ == Entry::detail_text(self.kind, self.size),
    {
        match self.kind {
            EntryKind::Parent => String::new(),
            EntryKind::Directory => match self.size {
                Some(n) => digits_of(n),
                None => String::new(),
            },
            _ => match self.size {
                Some(n) => human_size(n),
                None => String::new(),
            },
        }
    }
}

// --- shell commands -----------------------------------------------------------------

/// `text` with every single quote closed, escaped and reopened.
pub open spec fn escaped(text: Seq<char>) -> Seq<char>
    decreases text.len(),
{
    if text.len() == 0 {
        Seq::empty()
    } else if text.last() == '\'' {
        escaped(text.drop_last()) + seq!['\'', '\\', '\'', '\'']
    } else {
        escaped(text.drop_last()).push(text.last())
    }
}

/// `text` as a single POSIX shell argument.
pub open spec fn quoted(text: Seq<char>) -> Seq<char> {
    seq!['\''] + escaped(text) + seq!['\'']
}

/// Quote a string as a single POSIX shell argument.
///
/// Inside single quotes every byte is literal, with the sole exception of `'` itself.
/// So the quoted run is closed, a literal quote is emitted escaped, and a new run is
/// opened: `it's` becomes `'it'\''s'`.
pub fn shell_quote(s: &str) -> (q: String)
    ensures
        q@ == quoted(s@),
{
    let chars = chars_of(s);
    let mut q = String::new();
    q.push('\'');
    let mut i: usize = 0;
    assert(chars@.take(0) =~= Seq::<char>::empty());
    assert(q@ =~= seq!['\''] + escaped(chars@.take(0)));
    while i < chars.len()
        invariant
            i <= chars.len(),
            q@ =~= seq!['\''] + escaped(chars@.take(i as int)),
        decreases chars.len() - i,
    {
        assert(chars@.take(i + 1).drop_last() =~= chars@.take(i as int));
        if chars[i] == '\'' {
            q.push('\'');
            q.push('\\');
            q.push('\'');
            q.push('\'');
        } else {
            q.push(chars[i]);
        }
        i += 1;
    }
    assert(chars@.take(i as int) =~= s@);
    q.push('\'');
    assert(q@ =~= quoted(s@));
    q
}

/// A `cd` command for `dir`, ready to write to a terminal.
///
/// Terminated with `\r`: carriage return is what the Enter key sends and what a shell
/// submits on.
pub fn cd_command(dir: &str) -> (bytes: Vec<u8>)
    ensures
        bytes@ == vstd::utf8::encode_utf8("cd "@ + quoted(dir@) + seq!['\r']),
{
    let mut command = "cd ".to_owned();
    command.append(shell_quote(dir).as_str());
    command.push('\r');
    assert(command@ =~= "cd "@ + quoted(dir@) + seq!['\r']);
    command.as_str().as_bytes_vec()
}

/// An `$EDITOR` invocation for `path`.
///
/// `$EDITOR` is expanded by the shell and no other editor is named, so that an unset
/// variable gives the shell's own diagnostic.
pub fn editor_command(path: &str) -> (bytes: Vec<u8>)
    ensures
        bytes@ == vstd::utf8::encode_utf8("\"$EDITOR\" "@ + quoted(path@) + seq!['\r']),
{
    let mut command = "\"$EDITOR\" ".to_owned();
    command.append(shell_quote(path).as_str());
    command.push('\r');
    assert(command@ =~= "\"$EDITOR\" "@ + quoted(path@) + seq!['\r']);
    command.as_str().as_bytes_vec()
}

/// What a POSIX shell reads back from a text of quoted runs and escaped quotes: inside
/// a run everything up to the closing quote is literal, outside it a backslash makes
/// the next character literal. `None` when a character would mean something else.
pub open spec fn unquoted(text: Seq<char>, inside: bool) -> Option<Seq<char>>
    decreases text.len(),
{
    if text.len() == 0 {
        if inside {
            None
        } else {
            Some(Seq::empty())
        }
    } else if text[0] == '\'' {
        unquoted(text.drop_first(), !inside)
    } else if inside {
        match unquoted(text.drop_first(), inside) {
            Some(rest) => Some(seq![text[0]] + rest),
            None => None,
        }
    } else if text[0] == '\\' && text.len() > 1 {
        match unquoted(text.drop_first().drop_first(), inside) {
            Some(rest) => Some(seq![text[1]] + rest),
            None => None,
        }
    } else {
        None
    }
}

proof fn lemma_unquoted_escaped(text: Seq<char>, tail: Seq<char>)
    requires
        unquoted(tail, true) is Some,
    ensures
        unquoted(escaped(text) + tail, true) == Some(text + unquoted(tail, true)->0),
    decreases text.len(),
{
    let rest = unquoted(tail, true)->0;
    if text.len() == 0 {
        assert(escaped(text) + tail =~= tail);
        assert(text + rest =~= rest);
    } else {
        let head = text.drop_last();
        let c = text.last();
        if c == '\'' {
            let mark = seq!['\'', '\\', '\'', '\''];
            let more = mark + tail;
            assert(escaped(text) + tail =~= escaped(head) + more);
            assert(more.drop_first() =~= seq!['\\', '\'', '\''] + tail);
            let second = more.drop_first();
            assert(second.drop_first().drop_first() =~= seq!['\''] + tail);
            let third = second.drop_first().drop_first();
            assert(third.drop_first() =~= tail);
            assert(unquoted(third, false) == unquoted(tail, true));
            assert(unquoted(second, false) == Some(seq!['\''] + rest));
            assert(unquoted(more, true) == unquoted(second, false));
            lemma_unquoted_escaped(head, more);
            assert(head + (seq![c] + rest) =~= text + rest);
        } else {
            let more = seq![c] + tail;
            assert(escaped(text) + tail =~= escaped(head) + more);
            assert(more.drop_first() =~= tail);
            assert(unquoted(more, true) == Some(seq![c] + rest));
            lemma_unquoted_escaped(head, more);
            assert(head + (seq![c] + rest) =~= text + rest);
        }
    }
}

/// Whatever a file is called, the shell reads its quoted name back as exactly that
/// name, one argument, with nothing expanded.
pub proof fn law_quoting_is_literal(text: Seq<char>)
    ensures
        unquoted(quoted(text), false) == Some(text),
{
    let tail = seq!['\''];
    assert(tail.drop_first() =~= Seq::<char>::empty());
    assert(unquoted(tail.drop_first(), false) == Some(Seq::<char>::empty()));
    assert(unquoted(tail, true) == Some(Seq::<char>::empty()));
    lemma_unquoted_escaped(text, tail);
    assert(quoted(text).drop_first() =~= escaped(text) + tail);
    assert(text + Seq::<char>::empty() =~= text);
}

// --- sorting ------------------------------------------------------------------------

impl EntryModel {
    pub open spec fn rank(self) -> int {
        match self.kind {
            EntryKind::Parent => 0,
            EntryKind::Directory => 1,
            _ => 2,
        }
    }

    pub open spec fn lower(self) -> Seq<char> {
        crate::strings::lowercase(self.name)
    }

    /// The parent row above directories above the rest, then by name without regard to
    /// case, then by name.
    pub open spec fn before(self, other: EntryModel) -> bool {
        ||| self.rank() < other.rank()
        ||| self.rank() == other.rank() && {
            ||| crate::strings::lex_less(self.lower(), other.lower())
            ||| self.lower() == other.lower() && crate::strings::lex_less(self.name, other.name)
        }
    }

    /// Neither row comes before the other.
    pub open spec fn level(self, other: EntryModel) -> bool {
        self.rank() == other.rank() && self.name == other.name
    }

    /// No row comes before one that is above it.
    pub open spec fn in_order(list: Seq<EntryModel>) -> bool {
        forall|i: int, j: int|
            0 <= i < j < list.len() ==> !(#[trigger] list[j]).before(#[trigger] list[i])
    }

    /// The first place, from `i` on, that `entry` does not come after.
    pub open spec fn slot(list: Seq<EntryModel>, entry: EntryModel, i: int) -> int
        decreases list.len() - i,
    {
        if i >= list.len() || !list[i].before(entry) {
            i
        } else {
            EntryModel::slot(list, entry, i + 1)
        }
    }

    /// The rows in order, rows that are level staying as they were.
    pub open spec fn sorted(list: Seq<EntryModel>) -> Seq<EntryModel>
        decreases list.len(),
    {
        if list.len() == 0 {
            Seq::empty()
        } else {
            let rest = EntryModel::sorted(list.drop_first());
            rest.insert(EntryModel::slot(rest, list[0], 0), list[0])
        }
    }
}

/// What a row is ordered by.
struct SortKey {
    rank: u8,
    lower: Vec<char>,
    name: Vec<char>,
}

impl SortKey {
    spec fn of(self, e: EntryModel) -> bool {
        self.rank == e.rank() && self.lower@ == e.lower() && self.name@ == e.name
    }
}

fn key_of(entry: &Entry) -> (key: SortKey)
    ensures
        key.of(entry@),
{
    let rank: u8 = match entry.kind {
        EntryKind::Parent => 0,
        EntryKind::Directory => 1,
        _ => 2,
    };
    let lower = to_lowercase(entry.name.as_str());
    SortKey { rank, lower: chars_of(lower.as_str()), name: chars_of(entry.name.as_str()) }
}

fn key_before(a: &SortKey, b: &SortKey, Ghost(x): Ghost<EntryModel>, Ghost(y): Ghost<EntryModel>) -> (less:
    bool)
    requires
        a.of(x),
        b.of(y),
    ensures
        less == x.before(y),
{
    if a.rank != b.rank {
        return a.rank < b.rank;
    }
    if text_less(&a.lower, &b.lower) {
        return true;
    }
    if text_less(&b.lower, &a.lower) {
        proof {
            crate::strings::lemma_lex_total(a.lower@, b.lower@);
        }
        return false;
    }
    proof {
        crate::strings::lemma_lex_total(a.lower@, b.lower@);
    }
    text_less(&a.name, &b.name)
}

/// A row above one that comes before `e` comes before `e` too.
proof fn lemma_before_chain(a: EntryModel, b: EntryModel, e: EntryModel)
    requires
        !b.before(a),
        b.before(e),
    ensures
        a.before(e),
{
    crate::strings::lemma_lex_total(a.lower(), b.lower());
    crate::strings::lemma_lex_total(a.name, b.name);
    if crate::strings::lex_less(a.lower(), b.lower()) && crate::strings::lex_less(
        b.lower(),
        e.lower(),
    ) {
        crate::strings::lemma_lex_transitive(a.lower(), b.lower(), e.lower());
    }
    if crate::strings::lex_less(a.name, b.name) && crate::strings::lex_less(b.name, e.name) {
        crate::strings::lemma_lex_transitive(a.name, b.name, e.name);
    }
}

proof fn lemma_before_strict(a: EntryModel, b: EntryModel)
    ensures
        a.before(b) ==> !b.before(a),
        !a.before(b) && !b.before(a) ==> a.level(b),
        !a.before(a),
{
    crate::strings::lemma_lex_total(a.lower(), b.lower());
    crate::strings::lemma_lex_total(a.name, b.name);
    crate::strings::lemma_lex_total(a.lower(), a.lower());
    crate::strings::lemma_lex_total(a.name, a.name);
}

/// The slot is where the rows that come before `entry` end.
proof fn lemma_slot(list: Seq<EntryModel>, entry: EntryModel, i: int, p: int)
    requires
        0 <= i <= p <= list.len(),
        forall|k: int| 0 <= k < p ==> (#[trigger] list[k]).before(entry),
        p < list.len() ==> !list[p].before(entry),
    ensures
        EntryModel::slot(list, entry, i) == p,
    decreases p - i,
{
    if i < p {
        assert(list[i].before(entry));
        lemma_slot(list, entry, i + 1, p);
    }
}

proof fn lemma_slot_bounds(list: Seq<EntryModel>, entry: EntryModel, i: int)
    requires
        0 <= i <= list.len(),
        forall|k: int| 0 <= k < i ==> (#[trigger] list[k]).before(entry),
    ensures
        ({
            let p = EntryModel::slot(list, entry, i);
            &&& i <= p <= list.len()
            &&& forall|k: int| 0 <= k < p ==> (#[trigger] list[k]).before(entry)
            &&& p < list.len() ==> !list[p].before(entry)
        }),
    decreases list.len() - i,
{
    if i < list.len() && list[i].before(entry) {
        lemma_slot_bounds(list, entry, i + 1);
    }
}

proof fn lemma_insert_keeps_order(list: Seq<EntryModel>, entry: EntryModel)
    requires
        EntryModel::in_order(list),
    ensures
        EntryModel::in_order(list.insert(EntryModel::slot(list, entry, 0), entry)),
{
    let p = EntryModel::slot(list, entry, 0);
    lemma_slot_bounds(list, entry, 0);
    let all = list.insert(p, entry);
    assert forall|i: int, j: int| 0 <= i < j < all.len() implies !(#[trigger] all[j]).before(
        #[trigger] all[i],
    ) by {
        let a = if i < p {
            list[i]
        } else if i == p {
            entry
        } else {
            list[i - 1]
        };
        let b = if j < p {
            list[j]
        } else if j == p {
            entry
        } else {
            list[j - 1]
        };
        assert(all[i] == a && all[j] == b);
        if j == p {
            assert(list[i].before(entry));
            lemma_before_strict(list[i], entry);
        } else if i == p {
            if b.before(entry) {
                if j - 1 > p {
                    lemma_before_chain(list[p], b, entry);
                }
            }
        }
    }
}

proof fn lemma_sorted_in_order(list: Seq<EntryModel>)
    ensures
        EntryModel::in_order(EntryModel::sorted(list)),
        EntryModel::sorted(list).len() == list.len(),
    decreases list.len(),
{
    if list.len() > 0 {
        let rest = EntryModel::sorted(list.drop_first());
        lemma_sorted_in_order(list.drop_first());
        lemma_slot_bounds(rest, list[0], 0);
        lemma_insert_keeps_order(rest, list[0]);
    }
}

/// Sort rows for display.
///
/// The order is total on what a directory can hold, so the list does not reshuffle
/// between visits however the directory was read.
pub fn sort_entries(entries: &mut Vec<Entry>)
    ensures
        EntryModel::all(final(entries)@) == EntryModel::sorted(EntryModel::all(old(entries)@)),
{
    let ghost all = EntryModel::all(entries@);
    let mut out: Vec<Entry> = Vec::new();
    let mut keys: Vec<SortKey> = Vec::new();
    assert(all.skip(all.len() as int) =~= Seq::empty());
    assert(EntryModel::all(out@) =~= EntryModel::sorted(all.skip(all.len() as int)));
    while entries.len() > 0
        invariant
            entries@.len() <= all.len(),
            EntryModel::all(entries@) =~= all.take(entries@.len() as int),
            EntryModel::all(out@) == EntryModel::sorted(all.skip(entries@.len() as int)),
            keys@.len() == out@.len(),
            forall|k: int| 0 <= k < keys@.len() ==> (#[trigger] keys@[k]).of(out@[k]@),
        decreases entries@.len(),
    {
        let ghost n = entries@.len() as int;
        let entry = entries.pop().unwrap();
        let ghost list = EntryModel::all(out@);
        proof {
            let rest = all.skip(n);
            assert(all.skip(n - 1).drop_first() =~= rest);
            assert(all.skip(n - 1)[0] == entry@) by {
                assert(EntryModel::all(entries@.push(entry))[n - 1] == all.take(n)[n - 1]);
            }
            lemma_sorted_in_order(rest);
        }
        let key = key_of(&entry);
        let at: usize = slot_of(&keys, &key, Ghost(list), Ghost(entry@));
        out.insert(at, entry);
        keys.insert(at, key);
        proof {
            assert(EntryModel::all(out@) =~= list.insert(at as int, entry@));
            assert forall|k: int| 0 <= k < keys@.len() implies (#[trigger] keys@[k]).of(
                out@[k]@,
            ) by {}
        }
    }
    assert(all.skip(0) =~= all);
    *entries = out;
}

/// The first place that `key` does not come after, by halving.
fn slot_of(
    keys: &Vec<SortKey>,
    key: &SortKey,
    Ghost(list): Ghost<Seq<EntryModel>>,
    Ghost(entry): Ghost<EntryModel>,
) -> (at: usize)
    requires
        keys@.len() == list.len(),
        forall|k: int| 0 <= k < keys@.len() ==> (#[trigger] keys@[k]).of(list[k]),
        key.of(entry),
        EntryModel::in_order(list),
    ensures
        at == EntryModel::slot(list, entry, 0),
        at <= keys@.len(),
{
    let mut low: usize = 0;
    let mut high: usize = keys.len();
    while low < high
        invariant
            low <= high <= keys@.len() == list.len(),
            forall|k: int| 0 <= k < keys@.len() ==> (#[trigger] keys@[k]).of(list[k]),
            key.of(entry),
            EntryModel::in_order(list),
            forall|k: int| 0 <= k < low ==> (#[trigger] list[k]).before(entry),
            forall|k: int| high <= k < list.len() ==> !(#[trigger] list[k]).before(entry),
        decreases high - low,
    {
        let mid: usize = low + (high - low) / 2;
        if key_before(&keys[mid], key, Ghost(list[mid as int]), Ghost(entry)) {
            proof {
                assert forall|k: int| 0 <= k < mid + 1 implies (#[trigger] list[k]).before(entry) by {
                    if k < mid {
                        lemma_before_chain(list[k], list[mid as int], entry);
                    }
                }
            }
            low = mid + 1;
        } else {
            proof {
                assert forall|k: int| mid <= k < list.len() implies !(#[trigger] list[k]).before(
                    entry,
                ) by {
                    if k > mid && list[k].before(entry) {
                        lemma_before_chain(list[mid as int], list[k], entry);
                    }
                }
            }
            high = mid;
        }
    }
    proof {
        lemma_slot(list, entry, 0, low as int);
    }
    low
}

/// A sorted listing is in order.
pub proof fn law_sorting_orders(list: Seq<EntryModel>)
    ensures
        EntryModel::in_order(EntryModel::sorted(list)),
{
    lemma_sorted_in_order(list);
}

/// Sorting keeps every row, and adds none.
pub proof fn law_sorting_keeps_rows(list: Seq<EntryModel>)
    ensures
        EntryModel::sorted(list).to_multiset() == list.to_multiset(),
    decreases list.len(),
{
    broadcast use vstd::seq_lib::group_to_multiset_ensures;

    if list.len() > 0 {
        let rest = EntryModel::sorted(list.drop_first());
        let p = EntryModel::slot(rest, list[0], 0);
        law_sorting_keeps_rows(list.drop_first());
        lemma_sorted_in_order(list.drop_first());
        lemma_slot_bounds(rest, list[0], 0);
        vstd::seq_lib::to_multiset_insert(rest, p, list[0]);
        assert(list =~= list.drop_first().insert(0, list[0]));
        vstd::seq_lib::to_multiset_insert(list.drop_first(), 0, list[0]);
    } else {
        assert(EntryModel::sorted(list) =~= list);
    }
}

proof fn lemma_in_order_unique(a: Seq<EntryModel>, b: Seq<EntryModel>)
    requires
        EntryModel::in_order(a),
        EntryModel::in_order(b),
        a.to_multiset() == b.to_multiset(),
        forall|i: int, j: int|
            0 <= i < a.len() && 0 <= j < a.len() && (#[trigger] a[i]).level(#[trigger] a[j])
                ==> a[i] == a[j],
    ensures
        a == b,
    decreases a.len(),
{
    broadcast use vstd::seq_lib::group_to_multiset_ensures;

    assert(a.len() == b.len()) by {
        assert(a.to_multiset().len() == a.len());
        assert(b.to_multiset().len() == b.len());
    }
    if a.len() == 0 {
        assert(a =~= b);
    } else {
        // The first rows are level, hence the same.
        assert(a.contains(a[0]));
        assert(b.contains(b[0]));
        assert(b.to_multiset().contains(a[0]));
        assert(a.to_multiset().contains(b[0]));
        assert(b.contains(a[0]));
        assert(a.contains(b[0]));
        let j = choose|j: int| 0 <= j < b.len() && b[j] == a[0];
        let i = choose|i: int| 0 <= i < a.len() && a[i] == b[0];
        if j > 0 {
            assert(!b[j].before(b[0]));
        } else {
            lemma_before_strict(b[0], b[0]);
        }
        if i > 0 {
            assert(!a[i].before(a[0]));
        } else {
            lemma_before_strict(a[0], a[0]);
        }
        lemma_before_strict(a[0], a[i]);
        assert(a[0] == b[0]);
        let x = a.drop_first();
        let y = b.drop_first();
        assert(a =~= x.insert(0, a[0]));
        assert(b =~= y.insert(0, b[0]));
        vstd::seq_lib::to_multiset_insert(x, 0, a[0]);
        vstd::seq_lib::to_multiset_insert(y, 0, b[0]);
        assert(x.to_multiset() =~= a.to_multiset().remove(a[0]));
        assert(y.to_multiset() =~= b.to_multiset().remove(b[0]));
        assert(EntryModel::in_order(x)) by {
            assert forall|i: int, j: int| 0 <= i < j < x.len() implies !(#[trigger] x[j]).before(
                #[trigger] x[i],
            ) by {
                assert(!a[j + 1].before(a[i + 1]));
            }
        }
        assert(EntryModel::in_order(y)) by {
            assert forall|i: int, j: int| 0 <= i < j < y.len() implies !(#[trigger] y[j]).before(
                #[trigger] y[i],
            ) by {
                assert(!b[j + 1].before(b[i + 1]));
            }
        }
        assert forall|i: int, j: int|
            0 <= i < x.len() && 0 <= j < x.len() && (#[trigger] x[i]).level(#[trigger] x[j])
            implies x[i] == x[j] by {
            assert(a[i + 1].level(a[j + 1]));
        }
        lemma_in_order_unique(x, y);
    }
}

/// The same rows sort the same way whatever order they arrive in, given that rows with
/// the same rank and name are the same row.
pub proof fn law_sorting_ignores_arrival(a: Seq<EntryModel>, b: Seq<EntryModel>)
    requires
        a.to_multiset() == b.to_multiset(),
        forall|i: int, j: int|
            0 <= i < a.len() && 0 <= j < a.len() && (#[trigger] a[i]).level(#[trigger] a[j])
                ==> a[i] == a[j],
    ensures
        EntryModel::sorted(a) == EntryModel::sorted(b),
{
    broadcast use vstd::seq_lib::group_to_multiset_ensures;

    let x = EntryModel::sorted(a);
    let y = EntryModel::sorted(b);
    lemma_sorted_in_order(a);
    lemma_sorted_in_order(b);
    law_sorting_keeps_rows(a);
    law_sorting_keeps_rows(b);
    assert forall|i: int, j: int|
        0 <= i < x.len() && 0 <= j < x.len() && (#[trigger] x[i]).level(#[trigger] x[j]) implies x[i]
        == x[j] by {
        assert(x.contains(x[i]));
        assert(x.contains(x[j]));
        assert(x.to_multiset().contains(x[i]));
        assert(x.to_multiset().contains(x[j]));
        assert(a.contains(x[i]));
        assert(a.contains(x[j]));
        let p = choose|p: int| 0 <= p < a.len() && a[p] == x[i];
        let q = choose|q: int| 0 <= q < a.len() && a[q] == x[j];
        assert(a[p].level(a[q]));
    }
    lemma_in_order_unique(x, y);
}

// --- listing ------------------------------------------------------------------------

/// What reading a directory gave for one of its entries. `link` and `dir` are of the
/// entry itself, not of what it points at.
#[derive(Debug, PartialEq, Eq)]
pub struct Listed {
    pub name: String,
    pub path: String,
    pub link: bool,
    pub dir: bool,
    /// The number of entries of a directory, the length of anything else.
    pub size: Option<u64>,
}

/// A directory entry as a mathematical value.
#[verifier::ext_equal]
pub struct ListedModel {
    pub name: Seq<char>,
    pub path: Seq<char>,
    pub link: bool,
    pub dir: bool,
    pub size: Option<u64>,
}

impl View for Listed {
    type V = ListedModel;

    open spec fn view(&self) -> ListedModel {
        ListedModel {
            name: self.name@,
            path: self.path@,
            link: self.link,
            dir: self.dir,
            size: self.size,
        }
    }
}

impl ListedModel {
    pub open spec fn all(list: Seq<Listed>) -> Seq<ListedModel> {
        Seq::new(list.len(), |i: int| list[i]@)
    }

    /// A dot hides an entry.
    pub open spec fn hidden(self) -> bool {
        self.name.len() > 0 && self.name[0] == '.'
    }

    /// A link lists as a link, whatever it points at: deleting it must not follow it.
    pub open spec fn row(self) -> EntryModel {
        EntryModel {
            name: self.name,
            path: self.path,
            kind: if self.link {
                EntryKind::Symlink
            } else if self.dir {
                EntryKind::Directory
            } else {
                EntryKind::File
            },
            size: self.size,
        }
    }

    /// The rows of the entries that are shown.
    pub open spec fn shown(list: Seq<ListedModel>, show_hidden: bool) -> Seq<EntryModel>
        decreases list.len(),
    {
        if list.len() == 0 {
            Seq::empty()
        } else {
            let rest = ListedModel::shown(list.drop_last(), show_hidden);
            if !show_hidden && list.last().hidden() {
                rest
            } else {
                rest.push(list.last().row())
            }
        }
    }
}

impl EntryModel {
    /// The `..` row, for a directory that has a parent.
    pub open spec fn parent_rows(dir: Seq<char>) -> Seq<EntryModel> {
        match crate::paths::parent_of(dir) {
            Some(up) => seq![
                EntryModel { name: ".."@, path: up, kind: EntryKind::Parent, size: None },
            ],
            None => Seq::empty(),
        }
    }

    /// What is listed of the rows of a directory: as many as the limit, in the order
    /// they were read, then sorted, under the parent row.
    pub open spec fn listing(dir: Seq<char>, rows: Seq<EntryModel>) -> Seq<EntryModel> {
        EntryModel::parent_rows(dir) + EntryModel::sorted(
            rows.take(
                if rows.len() <= MAX_ENTRIES {
                    rows.len() as int
                } else {
                    MAX_ENTRIES as int
                },
            ),
        )
    }

    /// How many rows were left out.
    pub open spec fn overflow(rows: Seq<EntryModel>) -> int {
        if rows.len() <= MAX_ENTRIES {
            0
        } else {
            rows.len() - MAX_ENTRIES
        }
    }

    /// The rows of a directory as it was read; none when it could not be.
    pub open spec fn rows_of(read: Option<Vec<Listed>>, show_hidden: bool) -> Seq<EntryModel> {
        match read {
            Some(list) => ListedModel::shown(ListedModel::all(list@), show_hidden),
            None => Seq::empty(),
        }
    }
}

fn row_of(item: &Listed) -> (entry: Entry)
    ensures
        entry@ == item@.row(),
{
    let kind = if item.link {
        EntryKind::Symlink
    } else if item.dir {
        EntryKind::Directory
    } else {
        EntryKind::File
    };
    Entry { name: item.name.clone(), path: item.path.clone(), kind, size: item.size }
}

fn is_hidden(item: &Listed) -> (b: bool)
    ensures
        b == item@.hidden(),
{
    let name = item.name.as_str();
    name.unicode_len() > 0 && name.get_char(0) == '.'
}

/// Turn a directory, as it was read, into rows, and count those beyond the limit.
///
/// An unreadable directory shows its parent row and nothing else. The order a directory
/// is read in is not deterministic, so the sort is load-bearing.
pub fn read_dir(dir: &str, read: Option<Vec<Listed>>, show_hidden: bool) -> (r: (Vec<Entry>, usize))
    ensures
        EntryModel::all(r.0@) == EntryModel::listing(
            dir@,
            EntryModel::rows_of(read, show_hidden),
        ),
        r.1 == EntryModel::overflow(EntryModel::rows_of(read, show_hidden)),
        r.0@.len() <= MAX_ENTRIES + 1,
{
    let ghost rows_model = EntryModel::rows_of(read, show_hidden);
    let mut rows: Vec<Entry> = Vec::new();
    let mut truncated: usize = 0;
    assert(EntryModel::all(rows@) =~= Seq::empty());
    if let Some(list) = &read {
        let ghost all = ListedModel::all(list@);
        let mut i: usize = 0;
        assert(all.take(0) =~= Seq::empty());
        assert(Seq::<EntryModel>::empty().take(0) =~= Seq::empty());
        while i < list.len()
            invariant
                i <= list@.len(),
                all == ListedModel::all(list@),
                rows@.len() <= MAX_ENTRIES,
                rows@.len() + truncated == ListedModel::shown(
                    all.take(i as int),
                    show_hidden,
                ).len() <= i,
                truncated > 0 ==> rows@.len() == MAX_ENTRIES,
                EntryModel::all(rows@) =~= ListedModel::shown(all.take(i as int), show_hidden).take(
                    rows@.len() as int,
                ),
            decreases list@.len() - i,
        {
            let item = &list[i];
            let ghost before = ListedModel::shown(all.take(i as int), show_hidden);
            proof {
                assert(all.take(i + 1).drop_last() =~= all.take(i as int));
                assert(all.take(i + 1).last() == item@);
            }
            let ghost so_far = EntryModel::all(rows@);
            if !show_hidden && is_hidden(item) {
            } else if rows.len() >= MAX_ENTRIES {
                truncated += 1;
                assert(before.push(item@.row()).take(rows@.len() as int) =~= before.take(
                    rows@.len() as int,
                ));
            } else {
                rows.push(row_of(item));
                assert(EntryModel::all(rows@) =~= so_far.push(item@.row()));
            }
            i += 1;
        }
        assert(all.take(i as int) =~= all);
    } else {
        assert(rows_model.take(0) =~= Seq::empty());
    }
    assert(EntryModel::all(rows@) =~= rows_model.take(rows@.len() as int));
    let ghost kept = rows_model.take(rows@.len() as int);
    sort_entries(&mut rows);
    proof {
        lemma_sorted_in_order(kept);
        assert(EntryModel::all(rows@).len() == kept.len());
    }
    let mut entries: Vec<Entry> = Vec::new();
    if let Some(up) = parent(dir) {
        entries.push(
            Entry { name: "..".to_owned(), path: up, kind: EntryKind::Parent, size: None },
        );
    }
    assert(EntryModel::all(entries@) =~= EntryModel::parent_rows(dir@));
    let ghost top = entries@;
    let ghost sorted = rows@;
    entries.append(&mut rows);
    assert(entries@ =~= top + sorted);
    assert(EntryModel::all(entries@) =~= EntryModel::all(top) + EntryModel::all(sorted));
    (entries, truncated)
}

// --- the sidebar --------------------------------------------------------------------

/// A modal question at the foot of the sidebar.
#[derive(Debug, PartialEq, Eq)]
pub enum Prompt {
    Rename { from: String, value: String },
    NewFolder { value: String },
    /// `entries` is how many things are inside, so the confirmation can say what it is
    /// about to destroy.
    Delete { path: String, entries: usize },
}

/// A prompt as a mathematical value.
#[verifier::ext_equal]
pub enum PromptModel {
    Rename { from: Seq<char>, value: Seq<char> },
    NewFolder { value: Seq<char> },
    Delete { path: Seq<char>, entries: int },
}

impl View for Prompt {
    type V = PromptModel;

    open spec fn view(&self) -> PromptModel {
        match *self {
            Prompt::Rename { from, value } => PromptModel::Rename { from: from@, value: value@ },
            Prompt::NewFolder { value } => PromptModel::NewFolder { value: value@ },
            Prompt::Delete { path, entries } => PromptModel::Delete {
                path: path@,
                entries: entries as int,
            },
        }
    }
}

/// What the app should do after handling an explorer event.
#[derive(Debug, PartialEq, Eq)]
pub enum ExplorerOutcome {
    /// Nothing happened worth a frame.
    Continue,
    Redraw,
    /// Read this directory and hand it to `arrive`.
    Enter(String),
    /// Type this path at the shell prompt, without running it.
    InsertPath(String),
    /// Run `cd` in the focused shell.
    RunCd(String),
    /// Run `$EDITOR` against this file in the focused shell.
    OpenEditor(String),
    /// Give the keyboard back to the terminal, staying open.
    Unfocus,
}

/// An outcome as a mathematical value.
#[verifier::ext_equal]
pub enum OutcomeModel {
    Continue,
    Redraw,
    Enter(Seq<char>),
    InsertPath(Seq<char>),
    RunCd(Seq<char>),
    OpenEditor(Seq<char>),
    Unfocus,
}

impl View for ExplorerOutcome {
    type V = OutcomeModel;

    open spec fn view(&self) -> OutcomeModel {
        match *self {
            ExplorerOutcome::Continue => OutcomeModel::Continue,
            ExplorerOutcome::Redraw => OutcomeModel::Redraw,
            ExplorerOutcome::Enter(p) => OutcomeModel::Enter(p@),
            ExplorerOutcome::InsertPath(p) => OutcomeModel::InsertPath(p@),
            ExplorerOutcome::RunCd(p) => OutcomeModel::RunCd(p@),
            ExplorerOutcome::OpenEditor(p) => OutcomeModel::OpenEditor(p@),
            ExplorerOutcome::Unfocus => OutcomeModel::Unfocus,
        }
    }
}

/// What carrying out a prompt takes.
#[derive(Debug, PartialEq, Eq)]
pub enum Commit {
    /// No prompt was open.
    Nothing,
    /// The prompt stays open, and this says why.
    Refused(String),
    Rename { from: String, to: String },
    CreateFolder(String),
    Delete(String),
}

/// A commit as a mathematical value.
#[verifier::ext_equal]
pub enum CommitModel {
    Nothing,
    Refused(Seq<char>),
    Rename { from: Seq<char>, to: Seq<char> },
    CreateFolder(Seq<char>),
    Delete(Seq<char>),
}

impl View for Commit {
    type V = CommitModel;

    open spec fn view(&self) -> CommitModel {
        match *self {
            Commit::Nothing => CommitModel::Nothing,
            Commit::Refused(why) => CommitModel::Refused(why@),
            Commit::Rename { from, to } => CommitModel::Rename { from: from@, to: to@ },
            Commit::CreateFolder(path) => CommitModel::CreateFolder(path@),
            Commit::Delete(path) => CommitModel::Delete(path@),
        }
    }
}

/// How a path is removed.
#[derive(Debug, Clone, Copy, PartialEq, Eq, Structural)]
pub enum Removal {
    /// The directory and everything in it.
    Tree,
    /// The entry alone.
    Single,
}

/// How to remove a path, given whether it is itself a directory.
///
/// The answer must be about the path and not about what it points at: a link to a
/// directory is unlinked alone, and its target survives.
pub fn removal(is_dir_itself: bool) -> (r: Removal)
    ensures
        r == (if is_dir_itself {
            Removal::Tree
        } else {
            Removal::Single
        }),
{
    if is_dir_itself {
        Removal::Tree
    } else {
        Removal::Single
    }
}

pub struct Explorer {
    pub ui: Ui,
    pub dir: String,
    pub entries: Vec<Entry>,
    /// Entries beyond the limit, reported rather than hidden.
    pub truncated: usize,
    pub selected: usize,
    pub show_hidden: bool,
    pub prompt: Option<Prompt>,
}

/// The sidebar as a mathematical value.
#[verifier::ext_equal]
pub struct ExplorerModel {
    pub ui: UiModel,
    pub dir: Seq<char>,
    pub entries: Seq<EntryModel>,
    pub truncated: int,
    pub selected: int,
    pub show_hidden: bool,
    pub prompt: Option<PromptModel>,
}

impl View for Explorer {
    type V = ExplorerModel;

    open spec fn view(&self) -> ExplorerModel {
        ExplorerModel {
            ui: self.ui@,
            dir: self.dir@,
            entries: EntryModel::all(self.entries@),
            truncated: self.truncated as int,
            selected: self.selected as int,
            show_hidden: self.show_hidden,
            prompt: match self.prompt {
                Some(p) => Some(p@),
                None => None,
            },
        }
    }
}

/// The widget id of row `i`.
pub open spec fn row_id(i: int) -> WidgetId {
    WidgetId((ROW_ID_BASE + i) as u32)
}

/// Whether a character separates path components.
pub open spec fn separates(c: char, backslash: bool) -> bool {
    c == '/' || (backslash && c == '\\')
}

impl ExplorerModel {
    pub open spec fn wf(self) -> bool {
        &&& self.ui.wf()
        &&& self.entries.len() <= MAX_ENTRIES + 1
        &&& 0 <= self.selected <= MAX_ENTRIES
    }

    /// The current directory as it was read; the selection stays in range.
    pub open spec fn refreshed(self, read: Option<Vec<Listed>>) -> ExplorerModel {
        let rows = EntryModel::rows_of(read, self.show_hidden);
        let entries = EntryModel::listing(self.dir, rows);
        ExplorerModel {
            entries,
            truncated: EntryModel::overflow(rows),
            selected: if self.selected < entries.len() {
                self.selected
            } else if entries.len() > 0 {
                entries.len() - 1
            } else {
                0
            },
            ..self
        }
    }

    /// The selection on row `index`, focus and scrolling with it.
    pub open spec fn select(self, index: int) -> ExplorerModel {
        ExplorerModel {
            selected: index,
            ui: self.ui.focus_on(row_id(index)).focus_shown(),
            ..self
        }
    }

    /// Arrived in `dir`: its rows, the top of the list, the first row selected.
    pub open spec fn arrived(self, dir: Seq<char>, read: Option<Vec<Listed>>) -> ExplorerModel {
        let there = ExplorerModel { dir, ..self }.refreshed(read);
        ExplorerModel { ui: there.ui.scrolled(-0x4000_0000), ..there }.select(0)
    }

    /// The selection moved, held inside the list.
    pub open spec fn moved(self, delta: int) -> ExplorerModel {
        if self.entries.len() == 0 {
            self
        } else {
            let wanted = self.selected + delta;
            self.select(
                if wanted < 0 {
                    0
                } else if wanted >= self.entries.len() {
                    self.entries.len() - 1
                } else {
                    wanted
                },
            )
        }
    }

    /// Activating the selected row: a directory is entered, anything else is opened.
    pub open spec fn activation(self) -> OutcomeModel {
        if self.selected >= self.entries.len() {
            OutcomeModel::Continue
        } else {
            let entry = self.entries[self.selected];
            match entry.kind {
                EntryKind::Parent => OutcomeModel::Enter(entry.path),
                EntryKind::Directory => OutcomeModel::Enter(entry.path),
                _ => OutcomeModel::OpenEditor(entry.path),
            }
        }
    }

    /// A click on a row: it is selected, or activated when it already was.
    pub open spec fn clicked(self, id: WidgetId) -> (ExplorerModel, OutcomeModel) {
        let index = id.0 - ROW_ID_BASE;
        if index < 0 || index >= self.entries.len() {
            (self, OutcomeModel::Continue)
        } else if self.selected == index {
            (self, self.activation())
        } else {
            (self.select(index), OutcomeModel::Redraw)
        }
    }

    /// The selected row, unless it is the parent row.
    pub open spec fn own_row(self) -> Option<EntryModel> {
        if self.selected < self.entries.len() && self.entries[self.selected].kind
            != EntryKind::Parent {
            Some(self.entries[self.selected])
        } else {
            None
        }
    }

    /// Text typed into an open text prompt.
    pub open spec fn typed(self, text: Seq<char>) -> ExplorerModel {
        self.with_prompt(
            match self.prompt {
                Some(PromptModel::Rename { from, value }) => Some(
                    PromptModel::Rename { from, value: value + text },
                ),
                Some(PromptModel::NewFolder { value }) => Some(
                    PromptModel::NewFolder { value: value + text },
                ),
                other => other,
            },
        )
    }

    /// The last character of an open text prompt removed.
    pub open spec fn erased(self) -> ExplorerModel {
        self.with_prompt(
            match self.prompt {
                Some(PromptModel::Rename { from, value }) => Some(
                    PromptModel::Rename { from, value: without_last(value) },
                ),
                Some(PromptModel::NewFolder { value }) => Some(
                    PromptModel::NewFolder { value: without_last(value) },
                ),
                other => other,
            },
        )
    }

    pub open spec fn with_prompt(self, prompt: Option<PromptModel>) -> ExplorerModel {
        ExplorerModel { prompt, ..self }
    }

    /// The rows as widgets, and the count of those left out.
    pub open spec fn row_widgets(self) -> Seq<WidgetModel> {
        let rows = Seq::new(
            self.entries.len(),
            |i: int|
                WidgetModel::Entry {
                    id: row_id(i),
                    kind: self.entries[i].kind,
                    label: self.entries[i].name,
                    detail: Entry::detail_text(self.entries[i].kind, self.entries[i].size),
                    selected: i == self.selected,
                },
        );
        if self.truncated > 0 {
            rows.push(
                WidgetModel::Label {
                    text: "… "@ + crate::decimal::digits(self.truncated as nat) + " more"@,
                    heading: false,
                },
            )
        } else {
            rows
        }
    }

    /// The prompt's field or question.
    pub open spec fn prompt_widgets(self) -> Seq<WidgetModel> {
        match self.prompt {
            None => Seq::empty(),
            Some(PromptModel::Rename { value, .. }) => seq![
                WidgetModel::Text {
                    id: WidgetId(PROMPT_ID),
                    label: "Rename to"@,
                    value,
                    caret: value.len() as int,
                    placeholder: ""@,
                },
            ],
            Some(PromptModel::NewFolder { value }) => seq![
                WidgetModel::Text {
                    id: WidgetId(PROMPT_ID),
                    label: "New folder"@,
                    value,
                    caret: value.len() as int,
                    placeholder: ""@,
                },
            ],
            Some(PromptModel::Delete { path, entries }) => {
                let name = match crate::paths::file_name_of(path) {
                    Some(n) => n,
                    None => path,
                };
                seq![
                    WidgetModel::Label {
                        text: if entries > 0 {
                            "Delete "@ + name + " and "@ + crate::decimal::digits(entries as nat)
                                + " inside? (y/n)"@
                        } else {
                            "Delete "@ + name + "? (y/n)"@
                        },
                        heading: false,
                    },
                ]
            },
        }
    }

    /// A name that holds a separator would turn a rename into a move.
    pub open spec fn has_separator(name: Seq<char>, backslash: bool) -> bool {
        exists|i: int| 0 <= i < name.len() && separates(#[trigger] name[i], backslash)
    }

    /// Where a rename would put its file, when its name is one.
    pub open spec fn rename_goal(self, backslash: bool) -> Option<Seq<char>> {
        match self.prompt {
            Some(PromptModel::Rename { value, .. }) => {
                let name = crate::strings::trimmed(value);
                if name.len() == 0 || ExplorerModel::has_separator(name, backslash) {
                    None
                } else {
                    Some(crate::paths::joined(self.dir, name))
                }
            },
            _ => None,
        }
    }

    /// Carrying out the open prompt. A refusal keeps it open; anything else closes it.
    pub open spec fn committed(self, target_exists: bool, backslash: bool) -> (
        ExplorerModel,
        CommitModel,
    ) {
        let closed = self.with_prompt(None);
        match self.prompt {
            None => (self, CommitModel::Nothing),
            Some(PromptModel::Rename { from, value }) => {
                let name = crate::strings::trimmed(value);
                let to = crate::paths::joined(self.dir, name);
                if name.len() == 0 {
                    (self, CommitModel::Refused("a name cannot be empty"@))
                } else if ExplorerModel::has_separator(name, backslash) {
                    (self, CommitModel::Refused("a name cannot contain a path separator"@))
                } else if target_exists && !crate::paths::same_path(to, from) {
                    (self, CommitModel::Refused(name + " already exists"@))
                } else {
                    (closed, CommitModel::Rename { from, to })
                }
            },
            Some(PromptModel::NewFolder { value }) => {
                let name = crate::strings::trimmed(value);
                if name.len() == 0 {
                    (self, CommitModel::Refused("a name cannot be empty"@))
                } else {
                    (closed, CommitModel::CreateFolder(crate::paths::joined(self.dir, name)))
                }
            },
            Some(PromptModel::Delete { path, .. }) => (closed, CommitModel::Delete(path)),
        }
    }
}

fn contains_separator(name: &str, backslash: bool) -> (b: bool)
    ensures
        b == ExplorerModel::has_separator(name@, backslash),
{
    let chars = chars_of(name);
    let mut i: usize = 0;
    while i < chars.len()
        invariant
            i <= chars.len(),
            chars@ == name@,
            forall|j: int| 0 <= j < i ==> !separates(#[trigger] name@[j], backslash),
        decreases chars.len() - i,
    {
        if chars[i] == '/' || (backslash && chars[i] == '\\') {
            assert(separates(name@[i as int], backslash));
            return true;
        }
        i += 1;
    }
    false
}

impl Explorer {
    /// A sidebar on `dir`, as it was read.
    pub fn open(dir: &str, show_hidden: bool, read: Option<Vec<Listed>>) -> (e: Self)
        ensures
            e@ == (ExplorerModel {
                ui: UiModel::empty(),
                dir: dir@,
                entries: Seq::empty(),
                truncated: 0,
                selected: 0,
                show_hidden,
                prompt: None,
            }).refreshed(read),
            e@.wf(),
    {
        let mut e = Explorer {
            ui: Ui::new(),
            dir: dir.to_owned(),
            entries: Vec::new(),
            truncated: 0,
            selected: 0,
            show_hidden,
            prompt: None,
        };
        assert(EntryModel::all(e.entries@) =~= Seq::empty());
        e.refresh(read);
        e
    }

    pub fn dir(&self) -> (dir: &str)
        ensures
            dir@ == self@.dir,
    {
        self.dir.as_str()
    }

    pub fn prompt(&self) -> (prompt: Option<&Prompt>)
        ensures
            match prompt {
                Some(p) => self@.prompt == Some(p@),
                None => self@.prompt is None,
            },
    {
        self.prompt.as_ref()
    }

    pub fn selected(&self) -> (entry: Option<&Entry>)
        ensures
            match entry {
                Some(e) => self@.selected < self@.entries.len() && e@
                    == self@.entries[self@.selected],
                None => self@.selected >= self@.entries.len(),
            },
    {
        if self.selected < self.entries.len() {
            Some(&self.entries[self.selected])
        } else {
            None
        }
    }

    /// Take in the current directory, as it was read again.
    pub fn refresh(&mut self, read: Option<Vec<Listed>>)
        requires
            old(self)@.ui.wf(),
        ensures
            final(self)@ == old(self)@.refreshed(read),
            final(self)@.wf(),
    {
        let (entries, truncated) = read_dir(self.dir.as_str(), read, self.show_hidden);
        self.entries = entries;
        self.truncated = truncated;
        let last: usize = self.entries.len().saturating_sub(1);
        if self.selected > last {
            self.selected = last;
        }
        assert(self@.entries.len() == self.entries@.len());
    }

    /// Show or hide hidden files. Returns whether the directory has to be read again.
    pub fn set_show_hidden(&mut self, show: bool) -> (changed: bool)
        ensures
            final(self)@ == (ExplorerModel { show_hidden: show, ..old(self)@ }),
            changed == (show != old(self)@.show_hidden),
    {
        let changed = self.show_hidden != show;
        self.show_hidden = show;
        changed
    }

    /// Move into `dir`, resetting the selection and the scroll with it.
    pub fn arrive(&mut self, dir: &str, read: Option<Vec<Listed>>)
        requires
            old(self)@.wf(),
        ensures
            final(self)@ == old(self)@.arrived(dir@, read),
            final(self)@.wf(),
    {
        self.dir = dir.to_owned();
        self.refresh(read);
        self.ui.scroll_by(-0x4000_0000);
        self.select(0);
    }

    /// The rows, rebuilt each frame.
    pub fn widgets(&self) -> (rows: Vec<Widget>)
        requires
            self@.wf(),
        ensures
            crate::widget::models(rows@) == self@.row_widgets(),
    {
        let mut out: Vec<Widget> = Vec::new();
        let mut i: usize = 0;
        while i < self.entries.len()
            invariant
                i <= self.entries@.len(),
                self.entries@.len() <= MAX_ENTRIES + 1,
                out@.len() == i,
                forall|k: int|
                    0 <= k < i ==> (#[trigger] out@[k])@ == (WidgetModel::Entry {
                        id: row_id(k),
                        kind: self@.entries[k].kind,
                        label: self@.entries[k].name,
                        detail: Entry::detail_text(self@.entries[k].kind, self@.entries[k].size),
                        selected: k == self@.selected,
                    }),
            decreases self.entries@.len() - i,
        {
            let entry = &self.entries[i];
            let detail = entry.detail();
            out.push(
                Widget::entry(
                    WidgetId(ROW_ID_BASE + i as u32),
                    entry.kind,
                    entry.name.as_str(),
                    detail.as_str(),
                    i == self.selected,
                ),
            );
            i += 1;
        }
        if self.truncated > 0 {
            // A silent cap would read as a directory with that many files.
            let mut text = "… ".to_owned();
            push_digits(&mut text, self.truncated as u64);
            text.append(" more");
            out.push(Widget::label(text.as_str()));
        }
        assert(crate::widget::models(out@) =~= self@.row_widgets());
        out
    }

    /// The prompt row, if one is open. Empty otherwise, so the footer collapses.
    pub fn footer_widgets(&self) -> (rows: Vec<Widget>)
        ensures
            crate::widget::models(rows@) == self@.prompt_widgets(),
    {
        let mut out: Vec<Widget> = Vec::new();
        match &self.prompt {
            None => {},
            Some(Prompt::Rename { value, .. }) => {
                out.push(Widget::text(WidgetId(PROMPT_ID), "Rename to", value.as_str(), ""));
            },
            Some(Prompt::NewFolder { value }) => {
                out.push(Widget::text(WidgetId(PROMPT_ID), "New folder", value.as_str(), ""));
            },
            Some(Prompt::Delete { path, entries }) => {
                let name = match file_name(path.as_str()) {
                    Some(n) => n,
                    None => path.clone(),
                };
                let mut text = "Delete ".to_owned();
                text.append(name.as_str());
                if *entries > 0 {
                    text.append(" and ");
                    push_digits(&mut text, *entries as u64);
                    text.append(" inside? (y/n)");
                } else {
                    text.append("? (y/n)");
                }
                out.push(Widget::label(text.as_str()));
            },
        }
        assert(crate::widget::models(out@) =~= self@.prompt_widgets());
        out
    }

    /// Put the keyboard focus on an open prompt, so its caret is drawn. Called after
    /// layout, once the field exists.
    pub fn focus_prompt(&mut self)
        requires
            old(self)@.wf(),
        ensures
            final(self)@ == (if old(self)@.prompt is Some {
                ExplorerModel {
                    ui: old(self)@.ui.focus_on(WidgetId(PROMPT_ID)),
                    ..old(self)@
                }
            } else {
                old(self)@
            }),
            final(self)@.wf(),
    {
        if self.prompt.is_some() {
            self.ui.focus(WidgetId(PROMPT_ID));
        }
    }

    /// Move the selection by `delta` rows, clamped. Returns whether it moved.
    pub fn move_selection(&mut self, delta: i32) -> (moved: bool)
        requires
            old(self)@.wf(),
        ensures
            final(self)@ == old(self)@.moved(delta as int),
            final(self)@.wf(),
            moved == (final(self)@.selected != old(self)@.selected),
    {
        if self.entries.len() == 0 {
            return false;
        }
        let last: i64 = self.entries.len() as i64 - 1;
        let wanted: i64 = self.selected as i64 + delta as i64;
        let next: i64 = if wanted < 0 {
            0
        } else if wanted > last {
            last
        } else {
            wanted
        };
        let moved = next as usize != self.selected;
        self.select(next as usize);
        moved
    }

    /// Move the selection to `index`, keeping the panel's focus with it: scrolling
    /// follows the focus.
    fn select(&mut self, index: usize)
        requires
            old(self)@.wf(),
            index <= MAX_ENTRIES,
        ensures
            final(self)@ == old(self)@.select(index as int),
            final(self)@.wf(),
    {
        self.selected = index;
        self.ui.focus(WidgetId(ROW_ID_BASE + index as u32));
        self.ui.scroll_to_focus_in_body();
    }

    /// Activate the selected row: descend into a directory, or open a file.
    pub fn activate(&self) -> (outcome: ExplorerOutcome)
        ensures
            outcome@ == self@.activation(),
    {
        if self.selected >= self.entries.len() {
            return ExplorerOutcome::Continue;
        }
        let entry = &self.entries[self.selected];
        match entry.kind {
            EntryKind::Parent => ExplorerOutcome::Enter(entry.path.clone()),
            EntryKind::Directory => ExplorerOutcome::Enter(entry.path.clone()),
            _ => ExplorerOutcome::OpenEditor(entry.path.clone()),
        }
    }

    /// Handle a click on the row with `id`.
    ///
    /// Selects it, or activates it when it was already the selection. A single click
    /// that navigated would make the list unbrowsable with a mouse.
    pub fn click_row(&mut self, id: WidgetId) -> (outcome: ExplorerOutcome)
        requires
            old(self)@.wf(),
        ensures
            (final(self)@, outcome@) == old(self)@.clicked(id),
            final(self)@.wf(),
    {
        if id.0 < ROW_ID_BASE {
            return ExplorerOutcome::Continue;
        }
        let index: usize = (id.0 - ROW_ID_BASE) as usize;
        if index >= self.entries.len() {
            return ExplorerOutcome::Continue;
        }
        if self.selected == index {
            return self.activate();
        }
        self.select(index);
        ExplorerOutcome::Redraw
    }

    /// The parent directory, to be read and handed to `arrive`.
    pub fn go_up(&self) -> (up: Option<String>)
        ensures
            match up {
                Some(p) => crate::paths::parent_of(self@.dir) == Some(p@),
                None => crate::paths::parent_of(self@.dir) is None,
            },
    {
        parent(self.dir.as_str())
    }

    /// Ask for a new name for the selected row. The parent row cannot be renamed.
    pub fn begin_rename(&mut self) -> (done: bool)
        ensures
            done == (old(self)@.own_row() is Some),
            final(self)@ == (match old(self)@.own_row() {
                Some(e) => old(self)@.with_prompt(
                    Some(PromptModel::Rename { from: e.path, value: e.name }),
                ),
                None => old(self)@,
            }),
    {
        if self.selected >= self.entries.len() {
            return false;
        }
        let entry = &self.entries[self.selected];
        if entry.kind == EntryKind::Parent {
            return false;
        }
        self.prompt = Some(
            Prompt::Rename { from: entry.path.clone(), value: entry.name.clone() },
        );
        true
    }

    /// Ask for the name of a new folder.
    pub fn begin_new_folder(&mut self)
        ensures
            final(self)@ == old(self)@.with_prompt(
                Some(PromptModel::NewFolder { value: Seq::empty() }),
            ),
    {
        self.prompt = Some(Prompt::NewFolder { value: String::new() });
    }

    /// Ask whether to delete the selected row. `inside` is how many entries it has, as
    /// counted just now; it is stated only of a directory.
    pub fn begin_delete(&mut self, inside: usize) -> (done: bool)
        ensures
            done == (old(self)@.own_row() is Some),
            final(self)@ == (match old(self)@.own_row() {
                Some(e) => old(self)@.with_prompt(
                    Some(
                        PromptModel::Delete {
                            path: e.path,
                            entries: if e.kind == EntryKind::Directory {
                                inside as int
                            } else {
                                0
                            },
                        },
                    ),
                ),
                None => old(self)@,
            }),
    {
        if self.selected >= self.entries.len() {
            return false;
        }
        let entry = &self.entries[self.selected];
        if entry.kind == EntryKind::Parent {
            return false;
        }
        let entries: usize = if entry.kind == EntryKind::Directory {
            inside
        } else {
            0
        };
        self.prompt = Some(Prompt::Delete { path: entry.path.clone(), entries });
        true
    }

    /// Close an open prompt without acting on it.
    pub fn cancel_prompt(&mut self) -> (was_open: bool)
        ensures
            final(self)@ == old(self)@.with_prompt(None),
            was_open == (old(self)@.prompt is Some),
    {
        let was_open = self.prompt.is_some();
        self.prompt = None;
        was_open
    }

    /// Type into an open text prompt.
    pub fn prompt_input(&mut self, text: &str) -> (taken: bool)
        ensures
            taken == (old(self)@.prompt matches Some(p) && !(p is Delete)),
            final(self)@ == old(self)@.typed(text@),
    {
        match &self.prompt {
            Some(Prompt::Rename { from, value }) => {
                let mut next = value.clone();
                next.append(text);
                self.prompt = Some(Prompt::Rename { from: from.clone(), value: next });
                true
            },
            Some(Prompt::NewFolder { value }) => {
                let mut next = value.clone();
                next.append(text);
                self.prompt = Some(Prompt::NewFolder { value: next });
                true
            },
            _ => false,
        }
    }

    /// Remove the last character of an open text prompt.
    pub fn prompt_backspace(&mut self) -> (removed: bool)
        ensures
            removed == (match old(self)@.prompt {
                Some(PromptModel::Rename { value, .. }) => value.len() > 0,
                Some(PromptModel::NewFolder { value }) => value.len() > 0,
                _ => false,
            }),
            final(self)@ == old(self)@.erased(),
    {
        match &self.prompt {
            Some(Prompt::Rename { from, value }) => {
                let (next, removed) = drop_last_char(value.as_str());
                self.prompt = Some(Prompt::Rename { from: from.clone(), value: next });
                removed
            },
            Some(Prompt::NewFolder { value }) => {
                let (next, removed) = drop_last_char(value.as_str());
                self.prompt = Some(Prompt::NewFolder { value: next });
                removed
            },
            _ => false,
        }
    }

    /// The path an open rename would take, so the caller can see whether it is taken.
    pub fn rename_target(&self, backslash: bool) -> (target: Option<String>)
        ensures
            match target {
                Some(t) => self@.rename_goal(backslash) == Some(t@),
                None => self@.rename_goal(backslash) is None,
            },
    {
        match &self.prompt {
            Some(Prompt::Rename { value, .. }) => {
                let name = trim(value.as_str());
                if name.as_str().unicode_len() == 0 || contains_separator(
                    name.as_str(),
                    backslash,
                ) {
                    None
                } else {
                    Some(join(self.dir.as_str(), name.as_str()))
                }
            },
            _ => None,
        }
    }

    /// Decide what carrying out the open prompt takes.
    ///
    /// `target_exists` says whether something is at `rename_target` already: renaming
    /// onto a neighbour would silently destroy it. `backslash` says whether `\\`
    /// separates path components on this platform.
    pub fn commit_prompt(&mut self, target_exists: bool, backslash: bool) -> (commit: Commit)
        ensures
            (final(self)@, commit@) == old(self)@.committed(target_exists, backslash),
    {
        let commit = match &self.prompt {
            None => Commit::Nothing,
            Some(Prompt::Rename { from, value }) => {
                let name = trim(value.as_str());
                if name.as_str().unicode_len() == 0 {
                    return Commit::Refused("a name cannot be empty".to_owned());
                }
                if contains_separator(name.as_str(), backslash) {
                    return Commit::Refused("a name cannot contain a path separator".to_owned());
                }
                let to = join(self.dir.as_str(), name.as_str());
                if target_exists && !is_same_path(to.as_str(), from.as_str()) {
                    let mut why = name;
                    why.append(" already exists");
                    return Commit::Refused(why);
                }
                Commit::Rename { from: from.clone(), to }
            },
            Some(Prompt::NewFolder { value }) => {
                let name = trim(value.as_str());
                if name.as_str().unicode_len() == 0 {
                    return Commit::Refused("a name cannot be empty".to_owned());
                }
                Commit::CreateFolder(join(self.dir.as_str(), name.as_str()))
            },
            Some(Prompt::Delete { path, .. }) => Commit::Delete(path.clone()),
        };
        self.prompt = None;
        commit
    }
}

pub open spec fn without_last(text: Seq<char>) -> Seq<char> {
    if text.len() > 0 {
        text.drop_last()
    } else {
        text
    }
}

fn drop_last_char(text: &str) -> (r: (String, bool))
    ensures
        r.0@ == without_last(text@),
        r.1 == (text@.len() > 0),
{
    let chars = chars_of(text);
    let n: usize = chars.len();
    if n == 0 {
        return (text.to_owned(), false);
    }
    let s = slice_text(&chars, 0, n - 1);
    assert(s@ =~= without_last(text@));
    (s, true)
}

/// What to say when carrying out a prompt failed.
pub fn failure_message(commit: &Commit, error: &str) -> (text: String)
    ensures
        text@ == (match commit@ {
            CommitModel::Rename { .. } => "could not rename: "@ + error@,
            CommitModel::CreateFolder(_) => "could not create the folder: "@ + error@,
            CommitModel::Delete(_) => "could not delete: "@ + error@,
            CommitModel::Refused(why) => why,
            CommitModel::Nothing => error@,
        }),
{
    let mut text = match commit {
        Commit::Rename { .. } => "could not rename: ".to_owned(),
        Commit::CreateFolder(_) => "could not create the folder: ".to_owned(),
        Commit::Delete(_) => "could not delete: ".to_owned(),
        Commit::Refused(why) => {
            return why.clone();
        },
        Commit::Nothing => {
            return error.to_owned();
        },
    };
    text.append(error);
    text
}

// --- laws ---------------------------------------------------------------------------

/// A rename is never a move: where it goes has the same directory, and its name holds
/// no separator.
pub proof fn law_rename_stays_in_its_directory(
    e: ExplorerModel,
    target_exists: bool,
    backslash: bool,
)
    requires
        e.committed(target_exists, backslash).1 is Rename,
    ensures
        e.committed(target_exists, backslash).1 matches CommitModel::Rename { to, .. } && exists|
            name: Seq<char>,
        |
            {
                &&& #[trigger] crate::paths::joined(e.dir, name) == to
                &&& name.len() > 0
                &&& !name.contains('/')
            },
{
    if let Some(PromptModel::Rename { value, .. }) = e.prompt {
        let name = crate::strings::trimmed(value);
        assert(crate::paths::joined(e.dir, name) == crate::paths::joined(e.dir, name));
        if name.contains('/') {
            let i = choose|i: int| 0 <= i < name.len() && name[i] == '/';
            assert(separates(name[i], backslash));
        }
    }
}

/// A refused prompt stays open and changes nothing.
pub proof fn law_refusal_keeps_the_prompt(e: ExplorerModel, target_exists: bool, backslash: bool)
    requires
        e.committed(target_exists, backslash).1 is Refused,
    ensures
        e.committed(target_exists, backslash).0 == e,
        e.prompt is Some,
{
}

/// The parent row is never the subject of a rename or a deletion.
pub proof fn law_parent_row_is_untouchable(e: ExplorerModel)
    requires
        0 <= e.selected < e.entries.len(),
        e.entries[e.selected].kind == EntryKind::Parent,
    ensures
        e.own_row() is None,
{
}

/// At most one row is marked selected, and it is the selection.
pub proof fn law_one_row_is_marked(e: ExplorerModel, i: int)
    requires
        0 <= i < e.entries.len(),
    ensures
        e.row_widgets()[i] matches WidgetModel::Entry { selected, .. } && selected == (i
            == e.selected),
{
}

/// Arriving somewhere lists it from the top with its first row selected.
pub proof fn law_arrival_starts_at_the_top(
    e: ExplorerModel,
    dir: Seq<char>,
    read: Option<Vec<Listed>>,
)
    ensures
        e.arrived(dir, read).selected == 0,
        e.arrived(dir, read).dir == dir,
        e.arrived(dir, read).prompt == e.prompt,
{
}

} // verus!
