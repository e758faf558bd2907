use vstd::prelude::*;
use crate::model::{first_recognized, first_recognized_from, recurse_dir};

verus! {

/// The name of the subdirectory that a search also looks into.
pub fn recurse_dir_name() -> (r: String)
    ensures
        r@ == recurse_dir(),
{
    proof {
        reveal_strlit("docker-compose");
    }
    String::from_str("docker-compose")
}

/// The recognized names of a base compose file, in order of preference.
pub fn base_filenames() -> (r: Vec<String>)
    ensures
        r.deep_view() == seq!["docker-compose.yml"@, "docker-compose.yaml"@],
{
    let r = vec![String::from_str("docker-compose.yml"), String::from_str("docker-compose.yaml")];
    assert(r.deep_view() =~= seq!["docker-compose.yml"@, "docker-compose.yaml"@]);
    r
}

/// The recognized names of an override file, in order of preference.
pub fn override_filenames() -> (r: Vec<String>)
    ensures
        r.deep_view() == seq![
            "docker-compose.override.yml"@,
            "docker-compose.override.yaml"@,
        ],
{
    let r = vec![
        String::from_str("docker-compose.override.yml"),
        String::from_str("docker-compose.override.yaml"),
    ];
    assert(r.deep_view() =~= seq![
        "docker-compose.override.yml"@,
        "docker-compose.override.yaml"@,
    ]);
    r
}

/// Whether `listing` holds `name`.
pub fn holds(listing: &Vec<String>, name: &String) -> (r: bool)
    ensures
        r == listing.deep_view().contains(name@),
{
    let mut i: usize = 0;
    while i < listing.len()
        invariant
            i <= listing.len(),
            forall|j: int| 0 <= j < i ==> listing.deep_view()[j] != name@,
        decreases listing.len() - i,
    {
        if listing[i] == *name {
            assert(listing.deep_view()[i as int] == name@);
            return true;
        }
        i += 1;
    }
    false
}

/// The first of `names`, in their own order, that `listing` holds.
pub fn first_match(names: &Vec<String>, listing: &Vec<String>) -> (r: Option<String>)
    ensures
        r.deep_view() == first_recognized(names.deep_view(), listing.deep_view()),
{
    let mut i: usize = 0;
    while i < names.len()
        invariant
            i <= names.len(),
            first_recognized(names.deep_view(), listing.deep_view()) == first_recognized_from(
                names.deep_view(),
                listing.deep_view(),
                i as int,
            ),
        decreases names.len() - i,
    {
        if holds(listing, &names[i]) {
            return Some(names[i].clone());
        }
        i += 1;
    }
    None
}

} // verus!
