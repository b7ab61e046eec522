//! App management, part of the Provisioning API.
use vstd::prelude::*;

use crate::ocs::form_view;
use crate::text::{copy_str, str_eq};

verus! {

/// Narrows an app listing to enabled or disabled apps.
#[derive(Clone, Copy, Debug, PartialEq, Eq, Structural)]
pub enum AppFilter {
    Enabled,
    Disabled,
}

pub open spec fn filter_text(f: AppFilter) -> Seq<char> {
    match f {
        AppFilter::Enabled => "enabled"@,
        AppFilter::Disabled => "disabled"@,
    }
}

impl AppFilter {
    pub fn as_str(self) -> (r: &'static str)
        ensures
            r@ == filter_text(self),
    {
        match self {
            AppFilter::Enabled => "enabled",
            AppFilter::Disabled => "disabled",
        }
    }
}

/// The query of an app listing: the filter when there is one, nothing when
/// every installed app is wanted.
pub fn filter_query(filter: Option<AppFilter>) -> (r: Vec<(&'static str, String)>)
    ensures
        form_view(r@) == match filter {
            Some(f) => seq![("filter"@, filter_text(f))],
            None => Seq::<(Seq<char>, Seq<char>)>::empty(),
        },
{
    let mut r: Vec<(&'static str, String)> = Vec::new();
    match filter {
        Some(f) => {
            r.push(("filter", copy_str(f.as_str())));
        },
        None => {},
    }
    proof {
        assert(form_view(r@) =~= match filter {
            Some(f) => seq![("filter"@, filter_text(f))],
            None => Seq::<(Seq<char>, Seq<char>)>::empty(),
        });
    }
    r
}

/// Whether `id` is among the listed app ids.
pub fn lists_app(ids: &Vec<String>, id: &str) -> (r: bool)
    ensures
        r == exists|i: int| 0 <= i < ids@.len() && #[trigger] ids@[i]@ == id@,
{
    let mut i: usize = 0;
    while i < ids.len()
        invariant
            i <= ids.len(),
            forall|k: int| 0 <= k < i ==> (#[trigger] ids@[k])@ != id@,
        decreases ids.len() - i,
    {
        if str_eq(ids[i].as_str(), id) {
            return true;
        }
        i = i + 1;
    }
    false
}

/// The app list's `filter` values: `enabled` and `disabled`.
pub proof fn law_app_filter_names()
    ensures
        filter_text(AppFilter::Enabled) == seq!['e', 'n', 'a', 'b', 'l', 'e', 'd'],
        filter_text(AppFilter::Disabled) == seq!['d', 'i', 's', 'a', 'b', 'l', 'e', 'd'],
{
    reveal_strlit("enabled");
    reveal_strlit("disabled");
    assert("enabled"@ =~= seq!['e', 'n', 'a', 'b', 'l', 'e', 'd']);
    assert("disabled"@ =~= seq!['d', 'i', 's', 'a', 'b', 'l', 'e', 'd']);
}

} // verus!
