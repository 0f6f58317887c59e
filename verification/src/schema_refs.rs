//! References to API schemas that are defined elsewhere.
//!
//! Each type here stands for a schema of another package. It refers to that schema and has no
//! definition of its own, so the definition is neither repeated nor overwritten. The name of a
//! target has to be one that the API document registers: a reference to a name that is not
//! there is a broken client, not a build error.

use utoipa::openapi::Ref;
use vstd::prelude::*;

verus! {

/// A reference in an API document.
#[verifier::external_type_specification]
#[verifier::external_body]
pub struct ExRef(utoipa::openapi::Ref);

/// What a reference in an API document says.
pub struct RefView {
    /// Where it points to.
    pub location: Seq<char>,
    /// What it says in place of the description of its target.
    pub description: Seq<char>,
    /// What it says in place of the summary of its target.
    pub summary: Seq<char>,
}

impl RefView {
    /// A reference to a location that says nothing of its own.
    pub open spec fn bare(location: Seq<char>) -> RefView {
        RefView { location, description: Seq::empty(), summary: Seq::empty() }
    }
}

/// What a `utoipa::openapi::Ref` holds in its fields.
pub uninterp spec fn contents_of(reference: utoipa::openapi::Ref) -> RefView;

/// Calls `utoipa::openapi::Ref::new`. Trusted: the reference points to the location given, and
/// its description and summary are empty.
#[verifier::external_body]
fn refer_to(location: String) -> (reference: Ref)
    ensures
        contents_of(reference) == RefView::bare(location@),
{
    Ref::new(location)
}

/// Where an API document keeps the schema with this name.
pub open spec fn schema_location(name: Seq<char>) -> Seq<char> {
    "#/components/schemas/"@ + name
}

/// The name of the type that stands for the schema with this name.
pub open spec fn stand_in_name(target: Seq<char>) -> Seq<char> {
    target + "Ref"@
}

/// A type that stands for a schema defined elsewhere.
pub trait SchemaRef {
    /// The name of the schema that the type stands for.
    spec fn target() -> Seq<char>;

    /// The name of the schema that the type stands for.
    fn target_name() -> (name: &'static str)
        ensures
            name@ == Self::target(),
    ;

    /// A bare reference to the schema that the type stands for.
    fn reference() -> (reference: Ref)
        ensures
            contents_of(reference) == RefView::bare(schema_location(Self::target())),
    {
        let mut location: String = "#/components/schemas/".to_owned();
        location.append(Self::target_name());
        refer_to(location)
    }

    /// The name of the type itself, which is never that of the schema it stands for: under that
    /// name the document would take this reference for the definition.
    fn name() -> (name: String)
        ensures
            name@ == stand_in_name(Self::target()),
            name@ != Self::target(),
    {
        let mut name: String = Self::target_name().to_owned();
        name.append("Ref");
        proof {
            lemma_stand_in_never_refers_to_itself(Self::target());
        }
        name
    }
}

/// Stands for the `Role` schema.
pub struct RoleRef;

impl SchemaRef for RoleRef {
    open spec fn target() -> Seq<char> {
        "Role"@
    }

    fn target_name() -> (name: &'static str) {
        "Role"
    }
}

/// Stands for the `TextContent` schema.
pub struct TextContentRef;

impl SchemaRef for TextContentRef {
    open spec fn target() -> Seq<char> {
        "TextContent"@
    }

    fn target_name() -> (name: &'static str) {
        "TextContent"
    }
}

/// Stands for the `ImageContent` schema.
pub struct ImageContentRef;

impl SchemaRef for ImageContentRef {
    open spec fn target() -> Seq<char> {
        "ImageContent"@
    }

    fn target_name() -> (name: &'static str) {
        "ImageContent"
    }
}

/// A stand-in never refers to itself: neither its name nor the place where the document would
/// keep it is that of its target.
pub proof fn lemma_stand_in_never_refers_to_itself(target: Seq<char>)
    ensures
        stand_in_name(target) != target,
        schema_location(stand_in_name(target)) != schema_location(target),
{
    reveal_strlit("Ref");
    assert(stand_in_name(target).len() == target.len() + 3);
    assert(schema_location(stand_in_name(target)).len() == schema_location(target).len() + 3);
}

/// Stand-ins for different schemas have different names and refer to different places.
pub proof fn lemma_stand_ins_are_told_apart(target: Seq<char>, other: Seq<char>)
    requires
        target != other,
    ensures
        stand_in_name(target) != stand_in_name(other),
        schema_location(target) != schema_location(other),
{
    if stand_in_name(target) == stand_in_name(other) {
        assert(stand_in_name(target).take(stand_in_name(target).len() - "Ref"@.len()) =~= target);
        assert(stand_in_name(other).take(stand_in_name(other).len() - "Ref"@.len()) =~= other);
    }
    if schema_location(target) == schema_location(other) {
        let prefix = "#/components/schemas/"@.len() as int;
        assert(schema_location(target).skip(prefix) =~= target);
        assert(schema_location(other).skip(prefix) =~= other);
    }
}

} // verus!
