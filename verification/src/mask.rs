//! Mask engine: named key patterns with an optional storage-tier filter.
//!
//! `Prefix`, `Suffix` and `Contains` masks are literal substring tests;
//! `Regex` masks go through the `regex` crate. When a mask is
//! case-insensitive, both the pattern and the key are lowercased first.

use vstd::prelude::*;

use crate::models::{tier_eq, ObjectInfo, StorageClassTier};
use crate::text::{
    has_substring, prefix_matches, str_contains_sub, str_ends_with, str_starts_with,
    suffix_matches,
};

verus! {

/// How a mask's pattern is interpreted.
#[derive(Clone, Copy, Debug)]
pub enum MaskKind {
    Prefix,
    Suffix,
    Contains,
    Regex,
}

/// The name under which each kind is shown.
pub open spec fn kind_label_of(k: MaskKind) -> Seq<char> {
    match k {
        MaskKind::Prefix => "Prefix"@,
        MaskKind::Suffix => "Suffix"@,
        MaskKind::Contains => "Contains"@,
        MaskKind::Regex => "Regex"@,
    }
}

impl MaskKind {
    /// The display name of this kind.
    pub fn label(&self) -> (r: &str)
        ensures
            r@ == kind_label_of(*self),
    {
        match self {
            MaskKind::Prefix => "Prefix",
            MaskKind::Suffix => "Suffix",
            MaskKind::Contains => "Contains",
            MaskKind::Regex => "Regex",
        }
    }
}

/// A named pattern plus an optional tier filter, used to select a subset of
/// the loaded objects. Immutable once constructed: a new mask replaces the
/// active one rather than mutating it.
#[derive(Debug)]
pub struct ObjectMask {
    pub name: String,
    pub pattern: String,
    pub kind: MaskKind,
    pub case_sensitive: bool,
    pub storage_class_filter: Option<StorageClassTier>,
}

impl Clone for ObjectMask {
    fn clone(&self) -> (r: Self)
        ensures
            r == *self,
    {
        ObjectMask {
            name: self.name.clone(),
            pattern: self.pattern.clone(),
            kind: self.kind,
            case_sensitive: self.case_sensitive,
            storage_class_filter: match &self.storage_class_filter {
                Some(t) => Some(t.clone()),
                None => None,
            },
        }
    }
}

/// What `str::to_lowercase` returns for a given character sequence.
pub uninterp spec fn lower_of(s: Seq<char>) -> Seq<char>;

/// Whether the `regex` crate accepts this pattern with this case flag.
pub uninterp spec fn regex_accepts(pattern: Seq<char>, case_insensitive: bool) -> bool;

/// Whether the compiled regex matches the key.
pub uninterp spec fn regex_matched(pattern: Seq<char>, case_insensitive: bool, key: Seq<char>) -> bool;

/// Relies on `str::to_lowercase`: the result depends on the characters alone.
#[verifier::external_body]
fn lowercase(s: &str) -> (r: String)
    ensures
        r@ == lower_of(s@),
{
    s.to_lowercase()
}

/// Relies on `regex::RegexBuilder::build` and `regex::Regex::is_match`:
/// whether the pattern compiles, and whether the compiled regex matches a
/// key, depend only on the pattern text and the case-insensitivity flag.
#[verifier::external_body]
fn regex_is_match(pattern: &str, case_insensitive: bool, key: &str) -> (r: Option<bool>)
    ensures
        r is Some <==> regex_accepts(pattern@, case_insensitive),
        r is Some ==> r->0 == regex_matched(pattern@, case_insensitive, key@),
{
    match regex::RegexBuilder::new(pattern).case_insensitive(case_insensitive).build() {
        Ok(re) => Some(re.is_match(key)),
        Err(_) => None,
    }
}

/// Whether a mask matches a key. Literal kinds compare the normalized
/// sequences; a regex mask matches only if its pattern compiles, so an
/// invalid pattern matches no key at all.
pub open spec fn mask_matches_key(m: ObjectMask, key: Seq<char>) -> bool {
    match m.kind {
        MaskKind::Prefix => if m.case_sensitive {
            prefix_matches(m.pattern@, key)
        } else {
            prefix_matches(lower_of(m.pattern@), lower_of(key))
        },
        MaskKind::Suffix => if m.case_sensitive {
            suffix_matches(m.pattern@, key)
        } else {
            suffix_matches(lower_of(m.pattern@), lower_of(key))
        },
        MaskKind::Contains => if m.case_sensitive {
            has_substring(m.pattern@, key)
        } else {
            has_substring(lower_of(m.pattern@), lower_of(key))
        },
        MaskKind::Regex => regex_accepts(m.pattern@, !m.case_sensitive)
            && regex_matched(m.pattern@, !m.case_sensitive, key),
    }
}

/// A mask selects an object when its key matches and, if a tier filter is
/// set, the object's tier equals the filter.
pub open spec fn mask_selects(m: ObjectMask, o: ObjectInfo) -> bool {
    mask_matches_key(m, o.key@) && match m.storage_class_filter {
        Some(f) => tier_eq(o.storage_class, f),
        None => true,
    }
}

impl ObjectMask {
    /// Does this mask match the given key? Never panics; an invalid regex
    /// pattern yields `false` for every key.
    pub fn matches(&self, key: &str) -> (r: bool)
        ensures
            r == mask_matches_key(*self, key@),
    {
        match self.kind {
            MaskKind::Regex => {
                match regex_is_match(self.pattern.as_str(), !self.case_sensitive, key) {
                    Some(m) => m,
                    None => false,
                }
            }
            MaskKind::Prefix => {
                if self.case_sensitive {
                    str_starts_with(key, self.pattern.as_str())
                } else {
                    let k = lowercase(key);
                    let p = lowercase(self.pattern.as_str());
                    str_starts_with(k.as_str(), p.as_str())
                }
            }
            MaskKind::Suffix => {
                if self.case_sensitive {
                    str_ends_with(key, self.pattern.as_str())
                } else {
                    let k = lowercase(key);
                    let p = lowercase(self.pattern.as_str());
                    str_ends_with(k.as_str(), p.as_str())
                }
            }
            MaskKind::Contains => {
                if self.case_sensitive {
                    str_contains_sub(key, self.pattern.as_str())
                } else {
                    let k = lowercase(key);
                    let p = lowercase(self.pattern.as_str());
                    str_contains_sub(k.as_str(), p.as_str())
                }
            }
        }
    }

    /// Does this mask select the given object (key match plus tier filter)?
    pub fn selects(&self, o: &ObjectInfo) -> (r: bool)
        ensures
            r == mask_selects(*self, *o),
    {
        if !self.matches(o.key.as_str()) {
            return false;
        }
        match &self.storage_class_filter {
            Some(f) => o.storage_class.same_tier(f),
            None => true,
        }
    }

    /// A one-line description of the mask: its name, kind, pattern (with a
    /// case-insensitivity note) and tier filter, if any.
    pub fn summary(&self) -> (r: String)
        ensures
            r@ == summary_spec(*self),
    {
        let mut s = self.name.clone();
        s.append(" (");
        s.append(self.kind.label());
        s.append(": ");
        s.append(self.pattern.as_str());
        if !self.case_sensitive {
            s.append(" (insensitive)");
        }
        match &self.storage_class_filter {
            Some(t) => {
                s.append(" + ");
                s.append(t.label());
            }
            None => {}
        }
        s.append(")");
        proof {
            assert(s@ =~= summary_spec(*self));
        }
        s
    }
}

/// Regex safety: a pattern the regex engine refuses matches no key — for
/// any key, without raising (the matcher is total and returns `false`).
pub proof fn lemma_invalid_regex_matches_no_key(m: ObjectMask, key: Seq<char>)
    requires
        m.kind is Regex,
        !regex_accepts(m.pattern@, !m.case_sensitive),
    ensures
        !mask_matches_key(m, key),
{
}

/// The text `summary` builds: name, kind, pattern with case note, filter.
pub open spec fn summary_spec(m: ObjectMask) -> Seq<char> {
    m.name@ + " ("@ + kind_label_of(m.kind) + ": "@
        + (if m.case_sensitive { m.pattern@ } else { m.pattern@ + " (insensitive)"@ })
        + (match m.storage_class_filter {
            Some(t) => " + "@ + crate::models::spec_label(t),
            None => Seq::<char>::empty(),
        }) + ")"@
}

} // verus!
