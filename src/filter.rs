//! The filter evaluator: case-insensitive substring predicates combined by AND.
//!
//! Matching compares lower-cased copies of both operands. The evaluation over
//! copies that are already lower-cased stands on its own in
//! `should_include_folded`; `should_include_object` folds its inputs and then
//! defers to it.

use vstd::prelude::*;
use crate::text::{contains_str, lower_of, lowercase, occurs_in};
use crate::types::{opt_strings_view, opt_view, strings_view};

verus! {

/// An optional field contains `needle`; an absent field never does.
pub open spec fn field_has(field: Option<Seq<char>>, needle: Seq<char>) -> bool {
    match field {
        Some(f) => occurs_in(f, needle),
        None => false,
    }
}

/// One of the three fields of a record contains `needle`.
pub open spec fn any_field_has(
    prog_id: Option<Seq<char>>,
    description: Option<Seq<char>>,
    clsid: Seq<char>,
    needle: Seq<char>,
) -> bool {
    field_has(prog_id, needle) || field_has(description, needle) || occurs_in(clsid, needle)
}

/// Some keyword of `keywords` is contained in one of the three fields.
pub open spec fn some_keyword_matches(
    prog_id: Option<Seq<char>>,
    description: Option<Seq<char>>,
    clsid: Seq<char>,
    keywords: Seq<Seq<char>>,
) -> bool {
    exists|j: int|
        0 <= j < keywords.len() && #[trigger] any_field_has(
            prog_id,
            description,
            clsid,
            keywords[j],
        )
}

/// Admission of a record by a filter set, all operands already lower-cased:
/// every filter that is present holds.
pub open spec fn admits_folded(
    prog_id: Option<Seq<char>>,
    description: Option<Seq<char>>,
    clsid: Seq<char>,
    text: Option<Seq<char>>,
    filter_description: Option<Seq<char>>,
    filter_clsid: Option<Seq<char>>,
    filter_app: Option<Seq<Seq<char>>>,
) -> bool {
    &&& (match text {
        Some(t) => any_field_has(prog_id, description, clsid, t),
        None => true,
    })
    &&& (match filter_description {
        Some(d) => field_has(description, d),
        None => true,
    })
    &&& (match filter_clsid {
        Some(c) => occurs_in(clsid, c),
        None => true,
    })
    &&& (match filter_app {
        Some(keywords) => some_keyword_matches(prog_id, description, clsid, keywords),
        None => true,
    })
}

pub open spec fn fold_opt(o: Option<Seq<char>>) -> Option<Seq<char>> {
    match o {
        Some(s) => Some(lower_of(s)),
        None => None,
    }
}

pub open spec fn fold_all(s: Seq<Seq<char>>) -> Seq<Seq<char>> {
    s.map_values(|x: Seq<char>| lower_of(x))
}

pub open spec fn fold_opt_all(o: Option<Seq<Seq<char>>>) -> Option<Seq<Seq<char>>> {
    match o {
        Some(s) => Some(fold_all(s)),
        None => None,
    }
}

/// Admission of a record by a filter set: every filter that is present holds,
/// each comparing lower-cased copies of both operands.
pub open spec fn admits(
    prog_id: Option<Seq<char>>,
    description: Option<Seq<char>>,
    clsid: Seq<char>,
    text: Option<Seq<char>>,
    filter_description: Option<Seq<char>>,
    filter_clsid: Option<Seq<char>>,
    filter_app: Option<Seq<Seq<char>>>,
) -> bool {
    admits_folded(
        fold_opt(prog_id),
        fold_opt(description),
        lower_of(clsid),
        fold_opt(text),
        fold_opt(filter_description),
        fold_opt(filter_clsid),
        fold_opt_all(filter_app),
    )
}

/// Whether an optional field contains `needle`; an absent field never does.
pub fn field_contains(field: &Option<String>, needle: &str) -> (r: bool)
    ensures
        r == field_has(opt_view(*field), needle@),
{
    match field {
        Some(f) => contains_str(f.as_str(), needle),
        None => false,
    }
}

/// Whether one of the three fields contains `needle`.
pub fn any_field_contains(
    prog_id: &Option<String>,
    description: &Option<String>,
    clsid: &str,
    needle: &str,
) -> (r: bool)
    ensures
        r == any_field_has(opt_view(*prog_id), opt_view(*description), clsid@, needle@),
{
    field_contains(prog_id, needle) || field_contains(description, needle) || contains_str(
        clsid,
        needle,
    )
}

/// Decides admission of a record whose fields and filters are all lower-cased
/// already.
pub fn should_include_folded(
    prog_id: &Option<String>,
    description: &Option<String>,
    clsid: &str,
    text: &Option<String>,
    filter_description: &Option<String>,
    filter_clsid: &Option<String>,
    filter_app: &Option<Vec<String>>,
) -> (r: bool)
    ensures
        r == admits_folded(
            opt_view(*prog_id),
            opt_view(*description),
            clsid@,
            opt_view(*text),
            opt_view(*filter_description),
            opt_view(*filter_clsid),
            opt_strings_view(*filter_app),
        ),
{
    if let Some(t) = text {
        if !any_field_contains(prog_id, description, clsid, t.as_str()) {
            return false;
        }
    }
    if let Some(d) = filter_description {
        if !field_contains(description, d.as_str()) {
            return false;
        }
    }
    if let Some(c) = filter_clsid {
        if !contains_str(clsid, c.as_str()) {
            return false;
        }
    }
    if let Some(keywords) = filter_app {
        let ghost ks = strings_view(*keywords);
        let mut found = false;
        let mut i: usize = 0;
        while i < keywords.len()
            invariant
                i <= keywords.len(),
                ks == strings_view(*keywords),
                found == exists|j: int|
                    0 <= j < i && #[trigger] any_field_has(
                        opt_view(*prog_id),
                        opt_view(*description),
                        clsid@,
                        ks[j],
                    ),
            decreases keywords.len() - i,
        {
            assert(ks[i as int] == keywords@[i as int]@);
            if !found && any_field_contains(prog_id, description, clsid, keywords[i].as_str()) {
                found = true;
            }
            i = i + 1;
        }
        if !found {
            return false;
        }
    }
    true
}

/// Lower-cases an optional string.
pub fn fold_opt_string(o: &Option<String>) -> (r: Option<String>)
    ensures
        opt_view(r) == fold_opt(opt_view(*o)),
{
    match o {
        Some(s) => Some(lowercase(s.as_str())),
        None => None,
    }
}

/// Lower-cases every keyword of an optional list.
pub fn fold_opt_strings(o: &Option<Vec<String>>) -> (r: Option<Vec<String>>)
    ensures
        opt_strings_view(r) == fold_opt_all(opt_strings_view(*o)),
{
    match o {
        Some(v) => {
            let mut out: Vec<String> = Vec::new();
            let mut i: usize = 0;
            while i < v.len()
                invariant
                    i <= v.len(),
                    out.len() == i,
                    forall|j: int| 0 <= j < i ==> #[trigger] out@[j]@ == lower_of(v@[j]@),
                decreases v.len() - i,
            {
                out.push(lowercase(v[i].as_str()));
                i = i + 1;
            }
            assert(strings_view(out) =~= fold_all(strings_view(*v)));
            Some(out)
        },
        None => None,
    }
}

/// Decides whether a record with the given fields passes every active filter.
/// Each filter compares lower-cased copies of both operands; absent fields
/// match nothing; the application keywords are alternatives to one another.
pub fn should_include_object(
    prog_id: &Option<String>,
    description: &Option<String>,
    clsid: &str,
    interactive_filter: &Option<String>,
    filter_description: &Option<String>,
    filter_clsid: &Option<String>,
    filter_app: &Option<Vec<String>>,
) -> (r: bool)
    ensures
        r == admits(
            opt_view(*prog_id),
            opt_view(*description),
            clsid@,
            opt_view(*interactive_filter),
            opt_view(*filter_description),
            opt_view(*filter_clsid),
            opt_strings_view(*filter_app),
        ),
{
    let prog_l = fold_opt_string(prog_id);
    let desc_l = fold_opt_string(description);
    let clsid_l = lowercase(clsid);
    let text_l = fold_opt_string(interactive_filter);
    let fdesc_l = fold_opt_string(filter_description);
    let fclsid_l = fold_opt_string(filter_clsid);
    let app_l = fold_opt_strings(filter_app);
    should_include_folded(&prog_l, &desc_l, clsid_l.as_str(), &text_l, &fdesc_l, &fclsid_l, &app_l)
}

/// Soundness of admission: an admitted record satisfies every active filter,
/// on lower-cased copies. In particular, a record with a friendly name that is
/// admitted while a filter looking at the friendly name is active (the
/// free-text filter or the application keywords) has matched at least one
/// such filter.
pub proof fn lemma_admission_sound(
    prog_id: Option<Seq<char>>,
    description: Option<Seq<char>>,
    clsid: Seq<char>,
    text: Option<Seq<char>>,
    filter_description: Option<Seq<char>>,
    filter_clsid: Option<Seq<char>>,
    filter_app: Option<Seq<Seq<char>>>,
)
    requires
        admits(prog_id, description, clsid, text, filter_description, filter_clsid, filter_app),
        prog_id is Some,
        text is Some || filter_app is Some,
    ensures
        (text is Some && any_field_has(
            fold_opt(prog_id),
            fold_opt(description),
            lower_of(clsid),
            lower_of(text.unwrap()),
        )) || (filter_app is Some && some_keyword_matches(
            fold_opt(prog_id),
            fold_opt(description),
            lower_of(clsid),
            fold_all(filter_app.unwrap()),
        )),
        text is Some ==> any_field_has(
            fold_opt(prog_id),
            fold_opt(description),
            lower_of(clsid),
            lower_of(text.unwrap()),
        ),
        filter_description is Some ==> description is Some && occurs_in(
            lower_of(description.unwrap()),
            lower_of(filter_description.unwrap()),
        ),
        filter_clsid is Some ==> occurs_in(lower_of(clsid), lower_of(filter_clsid.unwrap())),
        filter_app is Some ==> some_keyword_matches(
            fold_opt(prog_id),
            fold_opt(description),
            lower_of(clsid),
            fold_all(filter_app.unwrap()),
        ),
{
}

} // verus!
