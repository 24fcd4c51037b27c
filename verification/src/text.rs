//! Template text and its expansion against a dictionary of values.

use crate::dict::{resolved, ValueDictionary};
use crate::scan::{placeholder_names, scan_placeholders};
use crate::subst::{replace_all, replaced};
use vstd::prelude::*;
use vstd::string::*;

verus! {

/// Text of a template element or value of a dictionary entry: one string, or an ordered
/// list of strings.
#[derive(Debug)]
pub enum Text {
    Multi(Vec<String>),
    Single(String),
}

/// What a [`Text`] holds, as sequences of characters.
pub enum TextView {
    Multi(Seq<Seq<char>>),
    Single(Seq<char>),
}

impl TextView {
    /// The strings in order: the declared lines of an element, or the values that a
    /// dictionary entry offers. A single string counts as a list of one.
    pub open spec fn strings(self) -> Seq<Seq<char>> {
        match self {
            TextView::Multi(ss) => ss,
            TextView::Single(s) => seq![s],
        }
    }

    /// The number of lines that an element declares, which its font size is budgeted for.
    pub open spec fn slots(self) -> nat {
        self.strings().len()
    }
}

impl View for Text {
    type V = TextView;

    open spec fn view(&self) -> TextView {
        match *self {
            Text::Multi(ss) => TextView::Multi(ss.deep_view()),
            Text::Single(s) => TextView::Single(s@),
        }
    }
}

impl Text {
    /// A text of one string.
    pub fn single(s: &str) -> (text: Text)
        ensures
            text@ == TextView::Single(s@),
    {
        Text::Single(s.to_owned())
    }
}

/// The token that marks a substitution point for the field `key`: the name in braces.
pub open spec fn placeholder(key: Seq<char>) -> Seq<char> {
    seq!['{'] + key + seq!['}']
}

/// `line` with every occurrence of the placeholder of `key` replaced by `value`.
pub open spec fn substituted(line: Seq<char>, key: Seq<char>, value: Seq<char>) -> Seq<char> {
    replaced(line, placeholder(key), value)
}

/// Every string of `work`, in order, with the placeholder of `key` replaced by `value`.
pub open spec fn substituted_all(work: Seq<Seq<char>>, key: Seq<char>, value: Seq<char>) -> Seq<
    Seq<char>,
> {
    work.map_values(|line: Seq<char>| substituted(line, key, value))
}

/// One expansion pass over the working sequence `work`, for one occurrence of the
/// placeholder of `key` bound to `value`. A single string is substituted in place. A list of
/// values yields one substituted copy of the whole working sequence per value, the copies
/// following each other in the order of the values.
pub open spec fn pass(work: Seq<Seq<char>>, key: Seq<char>, value: TextView) -> Seq<Seq<char>> {
    match value {
        TextView::Single(s) => substituted_all(work, key, s),
        TextView::Multi(values) => values.flat_map(|v: Seq<char>| substituted_all(work, key, v)),
    }
}

/// The expansion of `text` for the placeholder occurrences `keys`: starting from `text`
/// alone, one pass per occurrence, in the order of the occurrences. A name that occurs
/// twice is passed over twice.
pub open spec fn expansion(
    text: Seq<char>,
    keys: Seq<Seq<char>>,
    dict: Map<Seq<char>, TextView>,
) -> Seq<Seq<char>>
    decreases keys.len(),
{
    if keys.len() == 0 {
        seq![text]
    } else {
        pass(expansion(text, keys.drop_last(), dict), keys.last(), resolved(dict, keys.last()))
    }
}

/// The expansion of `text` for the placeholders that occur in it.
pub open spec fn filled(text: Seq<char>, dict: Map<Seq<char>, TextView>) -> Seq<Seq<char>> {
    expansion(text, placeholder_names(text), dict)
}

/// The lines that an element's text expands to: the expansion of each declared line, in the
/// order of the declared lines, as one flat sequence.
pub open spec fn filled_lines(text: TextView, dict: Map<Seq<char>, TextView>) -> Seq<Seq<char>> {
    text.strings().flat_map(|line: Seq<char>| filled(line, dict))
}

/// The placeholder token of `key` as a string.
fn placeholder_of(key: &str) -> (token: String)
    ensures
        token@ == placeholder(key@),
{
    proof {
        reveal_strlit("{");
        reveal_strlit("}");
    }
    let mut token = String::from_str("{");
    token.append(key);
    token.append("}");
    assert("{"@ =~= seq!['{'] && "}"@ =~= seq!['}']);
    token
}

/// Replaces the placeholder of `k` by `s` in every string of `t`.
pub fn replace_vecstr(k: &str, s: &str, t: &[String]) -> (out: Vec<String>)
    ensures
        out.deep_view() == substituted_all(t.deep_view(), k@, s@),
{
    let token = placeholder_of(k);
    let mut out: Vec<String> = Vec::new();
    let mut i: usize = 0;
    while i < t.len()
        invariant
            i <= t.len(),
            token@ == placeholder(k@),
            out.deep_view() == substituted_all(t.deep_view().take(i as int), k@, s@),
        decreases t.len() - i,
    {
        let line = replace_all(t[i].as_str(), token.as_str(), s);
        let ghost done = out.deep_view();
        out.push(line);
        i += 1;
        proof {
            assert(out.deep_view() =~= done.push(line@));
            assert(t.deep_view().take(i as int) =~= t.deep_view().take(i - 1).push(t[i - 1]@));
        }
    }
    assert(t.deep_view().take(i as int) =~= t.deep_view());
    out
}

/// One substituted copy of `t` for each of `values`, in their order.
fn replace_each(k: &str, values: &Vec<String>, t: &[String]) -> (out: Vec<String>)
    ensures
        out.deep_view() == values.deep_view().flat_map(
            |v: Seq<char>| substituted_all(t.deep_view(), k@, v),
        ),
{
    let ghost copy = |v: Seq<char>| substituted_all(t.deep_view(), k@, v);
    let mut out: Vec<String> = Vec::new();
    let mut j: usize = 0;
    while j < values.len()
        invariant
            j <= values.len(),
            copy == |v: Seq<char>| substituted_all(t.deep_view(), k@, v),
            out.deep_view() == values.deep_view().take(j as int).flat_map(copy),
        decreases values.len() - j,
    {
        let mut part = replace_vecstr(k, values[j].as_str(), t);
        let ghost done = out.deep_view();
        let ghost added = part.deep_view();
        out.append(&mut part);
        j += 1;
        proof {
            let seen = values.deep_view().take(j - 1);
            assert(out.deep_view() =~= done + added);
            assert(values.deep_view().take(j as int) =~= seen.push(values[j - 1]@));
            assert(seen.push(values[j - 1]@).map_values(copy) =~= seen.map_values(copy).push(
                added,
            ));
            seen.map_values(copy).lemma_flatten_push(added);
        }
    }
    assert(values.deep_view().take(j as int) =~= values.deep_view());
    out
}

/// Expands `text` for the placeholder occurrences `keys`, resolving each against `dic`.
/// A name without an entry is replaced by the empty string.
pub fn expand_occurrences(text: &str, keys: &Vec<String>, dic: &ValueDictionary) -> (lines: Vec<
    String,
>)
    ensures
        lines.deep_view() == expansion(text@, keys.deep_view(), dic@),
{
    let mut t: Vec<String> = Vec::new();
    t.push(text.to_owned());
    assert(t.deep_view() =~= seq![text@]);
    let mut i: usize = 0;
    while i < keys.len()
        invariant
            i <= keys.len(),
            t.deep_view() == expansion(text@, keys.deep_view().take(i as int), dic@),
        decreases keys.len() - i,
    {
        let k = keys[i].as_str();
        t = match dic.get(k) {
            Some(Text::Single(s)) => replace_vecstr(k, s.as_str(), t.as_slice()),
            Some(Text::Multi(ss)) => replace_each(k, ss, t.as_slice()),
            None => {
                proof {
                    reveal_strlit("");
                    assert(""@ =~= Seq::<char>::empty());
                }
                replace_vecstr(k, "", t.as_slice())
            },
        };
        i += 1;
        proof {
            let upto = keys.deep_view().take(i as int);
            assert(upto.drop_last() =~= keys.deep_view().take(i - 1));
            assert(upto.last() == k@);
        }
    }
    assert(keys.deep_view().take(i as int) =~= keys.deep_view());
    t
}

/// Expands `text` against `dic`: every placeholder occurrence in `text`, from left to
/// right, triggers one pass over the strings expanded so far.
pub fn filltext(text: &str, dic: &ValueDictionary) -> (lines: Vec<String>)
    ensures
        lines.deep_view() == filled(text@, dic@),
{
    let keys = scan_placeholders(text);
    expand_occurrences(text, &keys, dic)
}

/// Expands the text of an element against `dic`. Returns the expanded lines, those of the
/// first declared line first, and the number of lines that the element declares.
pub fn filltexts(text: &Text, dic: &ValueDictionary) -> (out: (Vec<String>, usize))
    ensures
        out.0.deep_view() == filled_lines(text@, dic@),
        out.1 == text@.slots(),
{
    let ghost fill = |line: Seq<char>| filled(line, dic@);
    match text {
        Text::Single(s) => {
            let lines = filltext(s.as_str(), dic);
            proof {
                assert(seq![s@].map_values(fill) =~= seq![fill(s@)]);
                seq![fill(s@)].lemma_flatten_one_element();
            }
            (lines, 1)
        },
        Text::Multi(ss) => {
            let mut lines: Vec<String> = Vec::new();
            let mut i: usize = 0;
            while i < ss.len()
                invariant
                    i <= ss.len(),
                    fill == |line: Seq<char>| filled(line, dic@),
                    lines.deep_view() == ss.deep_view().take(i as int).flat_map(fill),
                decreases ss.len() - i,
            {
                let mut part = filltext(ss[i].as_str(), dic);
                let ghost done = lines.deep_view();
                let ghost added = part.deep_view();
                lines.append(&mut part);
                i += 1;
                proof {
                    let seen = ss.deep_view().take(i - 1);
                    assert(lines.deep_view() =~= done + added);
                    assert(ss.deep_view().take(i as int) =~= seen.push(ss[i - 1]@));
                    assert(seen.push(ss[i - 1]@).map_values(fill) =~= seen.map_values(fill).push(
                        added,
                    ));
                    seen.map_values(fill).lemma_flatten_push(added);
                }
            }
            assert(ss.deep_view().take(i as int) =~= ss.deep_view());
            (lines, ss.len())
        },
    }
}

} // verus!
