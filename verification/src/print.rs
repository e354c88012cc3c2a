//! Printing of JSON values, which is left to `json-syntax`.
//!
//! A value is made a value of `json-syntax`, item by item and entry by
//! entry, and that crate computes its sizes and writes its text, in one of
//! its three ways: on several lines, on one line without spaces, or on one
//! line with some.

use vstd::prelude::*;

use crate::json::{clone_json, entries_view, items_view, Json, JsonView};

verus! {

/// The size of a value.
#[derive(Clone, Copy, PartialEq, Eq, Structural, Debug)]
pub enum Size {
    /// The value (array or object) is expanded on several lines.
    Expanded,
    /// The value stands on one line, of the given width.
    Width(usize),
}

/// One of the three ways in which `json-syntax` prints.
#[derive(Clone, Copy, PartialEq, Eq, Structural, Debug)]
pub enum Preset {
    /// On several lines.
    Pretty,
    /// On one line, without spaces.
    Compact,
    /// On one line, with some spaces.
    Inline,
}

/// A JSON value of `json-syntax`, without metadata.
#[verifier::external_body]
pub struct Written(pub json_syntax::Value<()>);

/// The plain data that a value of `json-syntax` holds.
pub uninterp spec fn syntax_view(v: Written) -> JsonView;

/// Whether `s` is a JSON number: whether `json_syntax::NumberBuf` can be parsed from it.
pub uninterp spec fn number_syntax(s: Seq<char>) -> bool;

/// The text that `json_syntax::Print::print_with` writes for the value `j`
/// with the options that `json-syntax` has for `preset`.
pub uninterp spec fn printed(j: JsonView, preset: Preset) -> Seq<char>;

/// What `json_syntax::print::PrecomputeSize::pre_compute_size` computes
/// for the value `j` with the options that `json-syntax` has for `preset`:
/// the size of the value, and the sizes that it adds for the arrays and
/// objects of the value.
pub uninterp spec fn computed_sizes(j: JsonView, preset: Preset) -> (Size, Seq<Size>);

/// The plain data of values of `json-syntax`.
pub open spec fn syntax_items(items: Seq<Written>) -> Seq<JsonView> {
    Seq::new(items.len(), |i: int| syntax_view(items[i]))
}

/// The plain data of entries whose values are values of `json-syntax`.
pub open spec fn syntax_entries(entries: Seq<(String, Written)>) -> Seq<(Seq<char>, JsonView)> {
    Seq::new(entries.len(), |i: int| (entries[i].0@, syntax_view(entries[i].1)))
}

/// `json_syntax::Value::Null`.
#[verifier::external_body]
fn syntax_null() -> (r: Written)
    ensures
        syntax_view(r) == JsonView::Null,
{
    Written(json_syntax::Value::Null)
}

/// `json_syntax::Value::Boolean` of `b`.
#[verifier::external_body]
fn syntax_boolean(b: bool) -> (r: Written)
    ensures
        syntax_view(r) == JsonView::Boolean(b),
{
    Written(json_syntax::Value::Boolean(b))
}

/// Parses `s` as a `json_syntax::NumberBuf`, which keeps the text as it
/// is, and gives `json_syntax::Value::Number` of it where that succeeds.
#[verifier::external_body]
fn syntax_number(s: &str) -> (r: Option<Written>)
    ensures
        r is Some <==> number_syntax(s@),
        r matches Some(v) ==> syntax_view(v) == JsonView::Number(s@),
{
    s.parse::<json_syntax::NumberBuf>().ok().map(|n| Written(json_syntax::Value::Number(n)))
}

/// `json_syntax::Value::String` of `s`.
#[verifier::external_body]
fn syntax_string(s: &str) -> (r: Written)
    ensures
        syntax_view(r) == JsonView::Text(s@),
{
    Written(json_syntax::Value::String(s.into()))
}

/// `json_syntax::Value::Array` of `items`, in their order.
#[verifier::external_body]
fn syntax_array(items: Vec<Written>) -> (r: Written)
    ensures
        syntax_view(r) == JsonView::Array(syntax_items(items@)),
{
    Written(json_syntax::Value::Array(items.into_iter().map(|v| locspan::Meta(v.0, ())).collect()))
}

/// `json_syntax::Value::Object` of `entries`: each is added at the end, whether or not its key is there already.
#[verifier::external_body]
fn syntax_object(entries: Vec<(String, Written)>) -> (r: Written)
    ensures
        syntax_view(r) == JsonView::Object(syntax_entries(entries@)),
{
    let entry = |(k, v): (String, Written)| {
        json_syntax::object::Entry::new(locspan::Meta(k.as_str().into(), ()), locspan::Meta(v.0, ()))
    };
    Written(json_syntax::Value::Object(entries.into_iter().map(entry).collect()))
}

/// Calls `json_syntax::Print::print_with` on `v` with the options that
/// `json-syntax` has for `preset`, and gives the text that it writes.
#[verifier::external_body]
fn print_value(v: &Written, preset: Preset) -> (r: String)
    ensures
        r@ == printed(syntax_view(*v), preset),
{
    let options = match preset {
        Preset::Pretty => json_syntax::print::Options::pretty(),
        Preset::Compact => json_syntax::print::Options::compact(),
        Preset::Inline => json_syntax::print::Options::inline(),
    };
    json_syntax::Print::print_with(&v.0, options).to_string()
}

/// Calls `json_syntax::print::PrecomputeSize::pre_compute_size` on `v`
/// with the options that `json-syntax` has for `preset`, and gives the
/// size that it returns and the sizes that it adds.
#[verifier::external_body]
fn size_value(v: &Written, preset: Preset) -> (r: (Size, Vec<Size>))
    ensures
        (r.0, r.1@) == computed_sizes(syntax_view(*v), preset),
{
    let options = match preset {
        Preset::Pretty => json_syntax::print::Options::pretty(),
        Preset::Compact => json_syntax::print::Options::compact(),
        Preset::Inline => json_syntax::print::Options::inline(),
    };
    let plain = |s| match s {
        json_syntax::print::Size::Expanded => Size::Expanded,
        json_syntax::print::Size::Width(w) => Size::Width(w),
    };
    let mut sizes = Vec::new();
    let size = json_syntax::print::PrecomputeSize::pre_compute_size(&v.0, &options, &mut sizes);
    (plain(size), sizes.into_iter().map(plain).collect())
}

/// Whether a value can be printed: every number in it is a JSON number.
pub open spec fn printable(j: JsonView) -> bool
    decreases j,
{
    match j {
        JsonView::Number(n) => number_syntax(n),
        JsonView::Array(items) => forall|i: int| 0 <= i < items.len() ==> printable(#[trigger] items[i]),
        JsonView::Object(entries) => forall|i: int| 0 <= i < entries.len() ==> printable((#[trigger] entries[i]).1),
        _ => true,
    }
}

/// The value of `json-syntax` that holds what `j` holds, where `j` can be printed.
pub fn to_syntax(j: &Json) -> (r: Option<Written>)
    ensures
        r is Some <==> printable(j@),
        r matches Some(v) ==> syntax_view(v) == j@,
    decreases j,
{
    match j {
        Json::Null => Some(syntax_null()),
        Json::Boolean(b) => Some(syntax_boolean(*b)),
        Json::Number(n) => syntax_number(n.as_str()),
        Json::Text(s) => Some(syntax_string(s.as_str())),
        Json::Array(items) => {
            let mut made: Vec<Written> = Vec::new();
            let mut k: usize = 0;
            while k < items.len()
                invariant
                    k <= items.len(),
                    j is Array,
                    *items == j->Array_0,
                    made.len() == k,
                    forall|i: int| 0 <= i < k ==> printable(#[trigger] items_view(items@)[i]),
                    forall|i: int| 0 <= i < k ==> syntax_view(#[trigger] made@[i]) == items@[i]@,
                decreases items.len() - k,
            {
                match to_syntax(&items[k]) {
                    Some(v) => {
                        made.push(v);
                    },
                    None => {
                        assert(items_view(items@)[k as int] == items@[k as int]@);
                        assert(j@ == JsonView::Array(items_view(items@)));
                        assert(!printable(items_view(items@)[k as int]));
                        assert(!printable(j@)) by {
                            reveal_with_fuel(printable, 2);
                            if printable(j@) {
                                assert(printable(j@->Array_0[k as int]));
                            }
                        }
                        return None;
                    },
                }
                k = k + 1;
            }
            assert(syntax_items(made@) =~= items_view(items@));
            Some(syntax_array(made))
        },
        Json::Object(entries) => {
            let mut made: Vec<(String, Written)> = Vec::new();
            let mut k: usize = 0;
            while k < entries.len()
                invariant
                    k <= entries.len(),
                    j is Object,
                    *entries == j->Object_0,
                    made.len() == k,
                    forall|i: int| 0 <= i < k ==> printable((#[trigger] entries_view(entries@)[i]).1),
                    forall|i: int|
                        0 <= i < k ==> (#[trigger] made@[i]).0@ == entries@[i].0@ && syntax_view(made@[i].1)
                            == entries@[i].1@,
                decreases entries.len() - k,
            {
                match to_syntax(&entries[k].1) {
                    Some(v) => {
                        made.push((entries[k].0.clone(), v));
                    },
                    None => {
                        assert(entries_view(entries@)[k as int].1 == entries@[k as int].1@);
                        assert(j@ == JsonView::Object(entries_view(entries@)));
                        assert(!printable(entries_view(entries@)[k as int].1));
                        assert(!printable(j@)) by {
                            reveal_with_fuel(printable, 2);
                            if printable(j@) {
                                assert(printable(j@->Object_0[k as int].1));
                            }
                        }
                        return None;
                    },
                }
                k = k + 1;
            }
            assert(syntax_entries(made@) =~= entries_view(entries@));
            Some(syntax_object(made))
        },
    }
}

/// What can be printed as JSON.
pub trait Print {
    /// The JSON value that this stands for.
    spec fn json(&self) -> JsonView;

    /// The JSON value that this stands for.
    fn to_json(&self) -> (r: Json)
        ensures
            r@ == self.json(),
    ;

    /// Computes the size of the value, where it can be printed, and adds
    /// to `sizes` the sizes of the arrays and objects within it.
    fn pre_compute_size(&self, preset: Preset, sizes: &mut Vec<Size>) -> (r: Option<Size>)
        ensures
            r is Some <==> printable(self.json()),
            match r {
                Some(size) => size == computed_sizes(self.json(), preset).0 && final(sizes)@ == old(sizes)@
                    + computed_sizes(self.json(), preset).1,
                None => final(sizes)@ == old(sizes)@,
            },
    {
        let j = self.to_json();
        match to_syntax(&j) {
            None => None,
            Some(v) => {
                let (size, more) = size_value(&v, preset);
                let mut k: usize = 0;
                while k < more.len()
                    invariant
                        k <= more.len(),
                        sizes@ == old(sizes)@ + more@.subrange(0, k as int),
                    decreases more.len() - k,
                {
                    sizes.push(more[k]);
                    assert(more@.subrange(0, k as int).push(more@[k as int]) =~= more@.subrange(0, k as int + 1));
                    k = k + 1;
                }
                assert(more@.subrange(0, more.len() as int) =~= more@);
                Some(size)
            },
        }
    }

    /// Prints the value in the given way, where it can be printed.
    fn print_with(&self, preset: Preset) -> (r: Option<String>)
        ensures
            r is Some <==> printable(self.json()),
            r matches Some(s) ==> s@ == printed(self.json(), preset),
    {
        let j = self.to_json();
        match to_syntax(&j) {
            None => None,
            Some(v) => Some(print_value(&v, preset)),
        }
    }

    /// Prints the value on several lines.
    fn pretty_print(&self) -> (r: Option<String>)
        ensures
            r is Some <==> printable(self.json()),
            r matches Some(s) ==> s@ == printed(self.json(), Preset::Pretty),
    {
        self.print_with(Preset::Pretty)
    }

    /// Prints the value on one line without spaces.
    fn compact_print(&self) -> (r: Option<String>)
        ensures
            r is Some <==> printable(self.json()),
            r matches Some(s) ==> s@ == printed(self.json(), Preset::Compact),
    {
        self.print_with(Preset::Compact)
    }

    /// Prints the value on one line with some spaces.
    fn inline_print(&self) -> (r: Option<String>)
        ensures
            r is Some <==> printable(self.json()),
            r matches Some(s) ==> s@ == printed(self.json(), Preset::Inline),
    {
        self.print_with(Preset::Inline)
    }
}

impl Print for Json {
    open spec fn json(&self) -> JsonView {
        self@
    }

    fn to_json(&self) -> (r: Json) {
        clone_json(self)
    }
}

} // verus!
