//! Declarations of, and contracts for, the outside capabilities the library
//! leans on: tag parsing (unic-langid), the resource store and pattern
//! formatter (fluent), and host-locale detection (sys-locale).

use vstd::prelude::*;
use crate::tag::{LanguageTag, TagView};
use crate::args::{ArgValue, ArgView, FormatOutcome};

verus! {

#[verifier::external_type_specification]
#[verifier::external_body]
#[verifier::reject_recursive_types(R)]
#[verifier::reject_recursive_types(M)]
pub struct ExFluentBundle<R, M>(fluent::bundle::FluentBundle<R, M>);

#[verifier::external_type_specification]
#[verifier::external_body]
pub struct ExFluentResource(fluent::FluentResource);

#[verifier::external_type_specification]
#[verifier::external_body]
pub struct ExFluentArgs<'args>(fluent::FluentArgs<'args>);

#[verifier::external_type_specification]
#[verifier::external_body]
pub struct ExIntlLangMemoizer(intl_memoizer::concurrent::IntlLangMemoizer);

#[verifier::external_type_specification]
#[verifier::external_body]
pub struct ExLanguageIdentifier(unic_langid::LanguageIdentifier);

/// What a tag string parses to, if it parses at all.
pub uninterp spec fn parsed_tag_of(s: Seq<char>) -> Option<TagView>;

/// The tag a `LanguageIdentifier` value stands for.
pub uninterp spec fn lid_model(l: unic_langid::LanguageIdentifier) -> TagView;

/// The messages a bundle holds: each stored key, mapped to whether its
/// message carries a value pattern.
pub uninterp spec fn bundle_messages(b: fluent::concurrent::FluentBundle<fluent::FluentResource>) -> Map<
    Seq<char>,
    bool,
>;

/// The locale fallback chain a bundle was built with, in order.
pub uninterp spec fn bundle_locales(b: fluent::concurrent::FluentBundle<fluent::FluentResource>) -> Seq<
    TagView,
>;

/// Every entry id a bundle stores, messages and terms alike: the namespace
/// a newly added resource's ids must not clash with.
pub uninterp spec fn bundle_ids(b: fluent::concurrent::FluentBundle<fluent::FluentResource>) -> Set<
    Seq<char>,
>;

/// The messages a parsed resource holds: each key, mapped to whether its
/// message carries a value pattern.
pub uninterp spec fn resource_messages(r: fluent::FluentResource) -> Map<Seq<char>, bool>;

/// The entry ids a parsed resource holds — messages and terms, in source
/// order, duplicates kept.
pub uninterp spec fn resource_ids(r: fluent::FluentResource) -> Seq<Seq<char>>;

/// What a resource file's text parses to: the message set it defines, or
/// nothing when the text is not well-formed.
pub uninterp spec fn ftl_source_messages(s: Seq<char>) -> Option<Map<Seq<char>, bool>>;

/// The entry ids a resource file's text defines — messages and terms, in
/// source order, duplicates kept.
pub uninterp spec fn ftl_source_ids(s: Seq<char>) -> Seq<Seq<char>>;

/// The value the formatter stores for one of the library's integer
/// arguments: it keeps numbers in its own numeric type, so the stored
/// value is a function of the integer but not the integer itself.
pub uninterp spec fn number_value_of(i: i64) -> ArgView;

/// The named arguments an argument set holds.
pub uninterp spec fn args_model(a: fluent::FluentArgs<'static>) -> Map<Seq<char>, ArgView>;

/// The text the pattern formatter renders for a stored message and an
/// argument set: a function of the bundle, the key and the arguments alone.
pub uninterp spec fn formatted_of(
    b: fluent::concurrent::FluentBundle<fluent::FluentResource>,
    key: Seq<char>,
    args: Option<Map<Seq<char>, ArgView>>,
) -> Seq<char>;

/// The message map of a bundle that stores nothing.
pub open spec fn empty_message_map() -> Map<Seq<char>, bool> {
    Map::empty()
}

/// The model of an argument set that holds nothing.
pub open spec fn empty_args_map() -> Map<Seq<char>, ArgView> {
    Map::empty()
}

/// The id namespace of a bundle that stores nothing.
pub open spec fn empty_id_set() -> Set<Seq<char>> {
    Set::empty()
}

/// What the formatter stores for one argument value: text verbatim, an
/// integer through the formatter's numeric type (see `number_value_of`).
pub open spec fn stored_arg_view(v: ArgView) -> ArgView {
    match v {
        ArgView::Text(s) => ArgView::Text(s),
        ArgView::Integer(i) => number_value_of(i),
    }
}

/// The model of an optional borrowed argument set.
pub open spec fn args_opt_model(a: Option<&fluent::FluentArgs<'static>>) -> Option<
    Map<Seq<char>, ArgView>,
> {
    match a {
        Some(fa) => Some(args_model(*fa)),
        None => None,
    }
}

/// Relies on `str::parse::<unic_langid::LanguageIdentifier>`: whether a tag
/// string parses, and which subtags it parses to, depend on the text alone;
/// the subtag accessors echo the parsed parts (`Language::as_str` yields
/// `"und"` for the undefined language, a non-empty code).
#[verifier::external_body]
pub(crate) fn parse_tag(s: &str) -> (r: Option<(unic_langid::LanguageIdentifier, LanguageTag)>)
    ensures
        r is Some <==> parsed_tag_of(s@) is Some,
        r is Some ==> r.unwrap().1@ == parsed_tag_of(s@).unwrap(),
        r is Some ==> lid_model(r.unwrap().0) == parsed_tag_of(s@).unwrap(),
{
    match s.parse::<unic_langid::LanguageIdentifier>() {
        Ok(lid) => {
            let tag = LanguageTag {
                language: lid.language.as_str().to_string(),
                script: lid.script.map(|sc| sc.as_str().to_string()),
                region: lid.region.map(|rg| rg.as_str().to_string()),
                variants: lid.variants().map(|v| v.as_str().to_string()).collect(),
            };
            Some((lid, tag))
        },
        Err(_) => None,
    }
}

/// Relies on `LanguageIdentifier`'s derived `Clone`: a field-for-field copy.
#[verifier::external_body]
pub(crate) fn lid_clone(l: &unic_langid::LanguageIdentifier) -> (r:
    unic_langid::LanguageIdentifier)
    ensures
        lid_model(r) == lid_model(*l),
{
    l.clone()
}

/// Relies on `sys_locale::get_locale`: the result depends on the host
/// environment, so nothing is promised of it.
#[verifier::external_body]
pub(crate) fn host_locale() -> (r: Option<String>) {
    sys_locale::get_locale()
}

/// Relies on `FluentBundle::new`: a fresh bundle records the given locale
/// chain and stores no messages.
#[verifier::external_body]
pub(crate) fn bundle_new(locales: Vec<unic_langid::LanguageIdentifier>) -> (r:
    fluent::concurrent::FluentBundle<fluent::FluentResource>)
    ensures
        bundle_locales(r) == locales@.map_values(|l: unic_langid::LanguageIdentifier| lid_model(l)),
        bundle_messages(r) == empty_message_map(),
        bundle_ids(r) == empty_id_set(),
{
    fluent::concurrent::FluentBundle::new_concurrent(locales)
}

/// Relies on `FluentResource::try_new`: success and the parsed message set
/// are functions of the source text alone.
#[verifier::external_body]
pub(crate) fn resource_try_new(source: String) -> (r: Result<fluent::FluentResource, ()>)
    ensures
        r is Ok <==> ftl_source_messages(source@) is Some,
        r is Ok ==> resource_messages(r.unwrap()) == ftl_source_messages(source@).unwrap(),
        r is Ok ==> resource_ids(r.unwrap()) == ftl_source_ids(source@),
{
    match fluent::FluentResource::try_new(source) {
        Ok(res) => Ok(res),
        Err(_) => Err(()),
    }
}

/// Relies on `FluentBundle::add_resource`: the locale chain is untouched;
/// it succeeds exactly when the resource's entry ids are distinct and none
/// is stored yet, and then every message of the resource is stored next to
/// the ones already there (any clash is reported as an error instead).
#[verifier::external_body]
pub(crate) fn bundle_add_resource(
    b: &mut fluent::concurrent::FluentBundle<fluent::FluentResource>,
    res: fluent::FluentResource,
) -> (r: Result<(), ()>)
    ensures
        bundle_locales(*final(b)) == bundle_locales(*old(b)),
        r is Ok <==> (resource_ids(res).no_duplicates() && bundle_ids(*old(b)).disjoint(
            resource_ids(res).to_set(),
        )),
        r is Ok ==> bundle_messages(*final(b)) == bundle_messages(*old(b)).union_prefer_right(
            resource_messages(res),
        ),
        r is Ok ==> bundle_ids(*final(b)) == bundle_ids(*old(b)).union(resource_ids(res).to_set()),
{
    match b.add_resource(res) {
        Ok(()) => Ok(()),
        Err(_) => Err(()),
    }
}

/// Relies on `FluentArgs::new`: the fresh argument set is empty.
#[verifier::external_body]
pub(crate) fn args_new() -> (r: fluent::FluentArgs<'static>)
    ensures
        args_model(r) == empty_args_map(),
{
    fluent::FluentArgs::new()
}

/// Relies on `FluentArgs::set`: inserts the value under the name, replacing
/// any value already stored there. Text is stored verbatim; an integer goes
/// through the formatter's own numeric type, so only its named stored value
/// is claimed.
#[verifier::external_body]
pub(crate) fn args_set(a: &mut fluent::FluentArgs<'static>, name: &str, v: &ArgValue)
    ensures
        args_model(*final(a)) == args_model(*old(a)).insert(name@, stored_arg_view(v@)),
        v is Integer ==> args_model(*final(a)) == args_model(*old(a)).insert(
            name@,
            number_value_of(v->Integer_0),
        ),
{
    let fv: fluent::FluentValue<'static> = match v {
        ArgValue::Text(s) => fluent::FluentValue::from(s.clone()),
        ArgValue::Integer(i) => fluent::FluentValue::from(*i),
    };
    a.set(name.to_string(), fv);
}

/// Relies on `FluentBundle::get_message` (lookup of the stored message by
/// id), `FluentMessage::value` (the message's value pattern, when it has
/// one) and `FluentBundle::format_pattern` (rendering is a function of the
/// bundle, the pattern and the arguments alone).
#[verifier::external_body]
pub(crate) fn bundle_format(
    b: &fluent::concurrent::FluentBundle<fluent::FluentResource>,
    key: &str,
    args: Option<&fluent::FluentArgs<'static>>,
) -> (r: FormatOutcome)
    ensures
        !bundle_messages(*b).contains_key(key@) ==> r == FormatOutcome::Missing,
        bundle_messages(*b).contains_key(key@) && !bundle_messages(*b)[key@] ==> r
            == FormatOutcome::NoValue,
        bundle_messages(*b).contains_key(key@) && bundle_messages(*b)[key@] ==> r is Done
            && r->Done_0@ == formatted_of(*b, key@, args_opt_model(args)),
{
    match b.get_message(key) {
        None => FormatOutcome::Missing,
        Some(msg) => match msg.value() {
            None => FormatOutcome::NoValue,
            Some(pattern) => {
                let mut errors = vec![];
                let v = b.format_pattern(pattern, args, &mut errors);
                FormatOutcome::Done(v.to_string())
            },
        },
    }
}

} // verus!
