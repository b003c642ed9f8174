//! The closed set of translation primitives and the tag an export carries.

use crate::text::{clone_opt_text, opt_text, text_eq};
use vstd::prelude::*;

verus! {

/// The ways in which a module can hand out a translator.
///
/// * `Hook`: `const { t } = useTranslation(ns)`.
/// * `TMethod`: `t('key', { ns: 'ns' })`.
/// * `TransComp`: `<Trans i18nKey="key" />`.
/// * `TranslationComp`: `<Translation>{(t) => t('key')}</Translation>`.
/// * `HocWrapper`: `withTranslation(ns)(Component)`.
/// * `ObjectMemberT`: `i18n.t('key')`.
#[derive(Clone, Copy, Debug, PartialEq, Eq, Structural)]
pub enum I18nType {
    Hook,
    TMethod,
    TransComp,
    TranslationComp,
    HocWrapper,
    ObjectMemberT,
}

/// The name that a kind is written with where a payload is handed over as text.
pub open spec fn kind_name(kind: I18nType) -> Seq<char> {
    match kind {
        I18nType::Hook => "Hook"@,
        I18nType::TMethod => "TMethod"@,
        I18nType::TransComp => "TransComp"@,
        I18nType::TranslationComp => "TranslationComp"@,
        I18nType::HocWrapper => "HocWrapper"@,
        I18nType::ObjectMemberT => "ObjectMemberT"@,
    }
}

/// The kind that is written `name`.
pub open spec fn kind_named(name: Seq<char>) -> Option<I18nType> {
    if name == kind_name(I18nType::Hook) {
        Some(I18nType::Hook)
    } else if name == kind_name(I18nType::TMethod) {
        Some(I18nType::TMethod)
    } else if name == kind_name(I18nType::TransComp) {
        Some(I18nType::TransComp)
    } else if name == kind_name(I18nType::TranslationComp) {
        Some(I18nType::TranslationComp)
    } else if name == kind_name(I18nType::HocWrapper) {
        Some(I18nType::HocWrapper)
    } else if name == kind_name(I18nType::ObjectMemberT) {
        Some(I18nType::ObjectMemberT)
    } else {
        None
    }
}

impl I18nType {
    /// The name that this kind is written with.
    pub fn as_str(&self) -> (name: &'static str)
        ensures
            name@ == kind_name(*self),
    {
        match self {
            I18nType::Hook => "Hook",
            I18nType::TMethod => "TMethod",
            I18nType::TransComp => "TransComp",
            I18nType::TranslationComp => "TranslationComp",
            I18nType::HocWrapper => "HocWrapper",
            I18nType::ObjectMemberT => "ObjectMemberT",
        }
    }

    /// The kind that is written `name`, if there is one.
    pub fn from_name(name: &str) -> (kind: Option<I18nType>)
        ensures
            kind == kind_named(name@),
    {
        if text_eq(name, "Hook") {
            Some(I18nType::Hook)
        } else if text_eq(name, "TMethod") {
            Some(I18nType::TMethod)
        } else if text_eq(name, "TransComp") {
            Some(I18nType::TransComp)
        } else if text_eq(name, "TranslationComp") {
            Some(I18nType::TranslationComp)
        } else if text_eq(name, "HocWrapper") {
            Some(I18nType::HocWrapper)
        } else if text_eq(name, "ObjectMemberT") {
            Some(I18nType::ObjectMemberT)
        } else {
            None
        }
    }
}

/// The classification attached to an exported name.
#[derive(Clone, Debug)]
pub struct I18nMember {
    pub kind: I18nType,
    pub ns: Option<String>,
}

/// An `I18nMember` with its namespace as characters.
pub struct MemberView {
    pub kind: I18nType,
    pub ns: Option<Seq<char>>,
}

impl View for I18nMember {
    type V = MemberView;

    open spec fn view(&self) -> MemberView {
        MemberView { kind: self.kind, ns: opt_text(self.ns) }
    }
}

/// The view of an optional classification.
pub open spec fn opt_member(member: Option<I18nMember>) -> Option<MemberView> {
    match member {
        Some(m) => Some(m@),
        None => None,
    }
}

impl I18nMember {
    /// A copy of this classification.
    pub fn copy(&self) -> (member: I18nMember)
        ensures
            member == *self,
    {
        I18nMember { kind: self.kind, ns: clone_opt_text(&self.ns) }
    }
}

/// A copy of an optional classification.
pub fn clone_opt_member(member: &Option<I18nMember>) -> (copy: Option<I18nMember>)
    ensures
        copy == *member,
{
    match member {
        Some(m) => Some(m.copy()),
        None => None,
    }
}

} // verus!
