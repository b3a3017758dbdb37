//! Map presentation tables: foot-surface kinds named in the map definition
//! and the albedo assets of a painted container.

use vstd::prelude::*;

use crate::text::{chars_eq_str, chars_of, push_str, string_from};

verus! {

/// Foot surface under a point of the map; outside every patch it is gravel.
#[derive(Clone, Copy, Debug, PartialEq, Eq, Structural)]
pub enum FootKind {
    Gravel,
    Cement,
    WetCement,
    Grass,
    Steel,
}

/// The kind a map definition names, if it names one.
pub open spec fn foot_kind_of(name: Seq<char>) -> Option<FootKind> {
    if name == "gravel"@ {
        Some(FootKind::Gravel)
    } else if name == "cement"@ {
        Some(FootKind::Cement)
    } else if name == "wet_cement"@ {
        Some(FootKind::WetCement)
    } else if name == "grass"@ {
        Some(FootKind::Grass)
    } else if name == "steel"@ {
        Some(FootKind::Steel)
    } else {
        None
    }
}

/// What `format!("{:?}", s)` gives for a string slice `s`: the text quoted
/// and escaped the way std's `Debug` for `str` does.
pub uninterp spec fn debug_str(s: Seq<char>) -> Seq<char>;

/// std's `Debug` formatting of a `str` (`format!("{:?}", s)`); the result
/// is named, not stated, since the escaping rules of std take pages.
#[verifier::external_body]
fn debug_quoted(s: &str) -> (r: String)
    ensures
        r@ == debug_str(s@),
{
    format!("{:?}", s)
}

/// The message for a foot-patch kind that the map definition misspells.
pub open spec fn foot_kind_error(name: Seq<char>) -> Seq<char> {
    "map-a.def foot_patch kind: unknown "@ + debug_str(name)
}

/// The message for an unknown foot kind, given the kind already quoted.
pub fn unknown_foot_kind_message(quoted: &str) -> (r: String)
    ensures
        r@ == "map-a.def foot_patch kind: unknown "@ + quoted@,
{
    let mut msg = string_from("map-a.def foot_patch kind: unknown ");
    push_str(&mut msg, quoted);
    msg
}

/// The foot kind a map definition's `kind` field names (`gravel`, `cement`,
/// `wet_cement`, `grass`, `steel`); any other name is refused.
pub fn foot_kind_named(name: &str) -> (r: Result<FootKind, String>)
    ensures
        foot_kind_of(name@) is Some ==> r == Ok::<FootKind, String>(foot_kind_of(name@)->0),
        foot_kind_of(name@) is None ==> r is Err && r->Err_0@ == foot_kind_error(name@),
{
    let c = chars_of(name);
    if chars_eq_str(&c, "gravel") {
        Ok(FootKind::Gravel)
    } else if chars_eq_str(&c, "cement") {
        Ok(FootKind::Cement)
    } else if chars_eq_str(&c, "wet_cement") {
        Ok(FootKind::WetCement)
    } else if chars_eq_str(&c, "grass") {
        Ok(FootKind::Grass)
    } else if chars_eq_str(&c, "steel") {
        Ok(FootKind::Steel)
    } else {
        let quoted = debug_quoted(name);
        Err(unknown_foot_kind_message(quoted.as_str()))
    }
}

/// The surface under a point, given each foot patch (in map order) with
/// whether it contains the point: the last patch that does wins, and
/// outside every patch it is gravel.
pub open spec fn surface_of(patches: Seq<(FootKind, bool)>) -> FootKind
    decreases patches.len(),
{
    if patches.len() == 0 {
        FootKind::Gravel
    } else if patches.last().1 {
        patches.last().0
    } else {
        surface_of(patches.drop_last())
    }
}

/// The foot surface under a point: `patches` lists each patch's kind and
/// whether it contains the point, in map order; later patches win.
pub fn surface_at(patches: &[(FootKind, bool)]) -> (r: FootKind)
    ensures
        r == surface_of(patches@),
{
    let mut kind = FootKind::Gravel;
    let n = patches.len();
    let mut i: usize = 0;
    while i < n
        invariant
            n == patches@.len(),
            i <= n,
            kind == surface_of(patches@.take(i as int)),
        decreases n - i,
    {
        let (k, hit) = patches[i];
        assert(patches@.take(i + 1).drop_last() =~= patches@.take(i as int));
        if hit {
            kind = k;
        }
        i = i + 1;
    }
    assert(patches@.take(n as int) =~= patches@);
    kind
}

/// Paint a container has when its definition names none.
pub fn paint_red() -> (r: String)
    ensures
        r@ == "red"@,
{
    string_from("red")
}

/// Side and door albedo asset ids of a container paint: `green`, or red for
/// any other paint.
pub open spec fn container_albedo_spec(paint: Seq<char>) -> (Seq<char>, Seq<char>) {
    if paint == "green"@ {
        ("container-side-green.albedo"@, "container-door-green.albedo"@)
    } else {
        ("container-side-red.albedo"@, "container-door-red.albedo"@)
    }
}

/// Side / door pack ids for a container paint (`red` by default, `green`).
pub fn container_albedo_ids(paint: &str) -> (r: (&'static str, &'static str))
    ensures
        (r.0@, r.1@) == container_albedo_spec(paint@),
{
    let c = chars_of(paint);
    if chars_eq_str(&c, "green") {
        ("container-side-green.albedo", "container-door-green.albedo")
    } else {
        ("container-side-red.albedo", "container-door-red.albedo")
    }
}

} // verus!
