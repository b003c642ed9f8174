//! The packages that are known to expose translation primitives.

use crate::analyzer::Analyzer;
use crate::i18n_types::I18nType;
use crate::resolver::{find_resolution, resolved_path, Resolution};
use crate::text::{clone_opt_text, opt_text, text_eq};
use vstd::prelude::*;

verus! {

/// One exported name of a translation package.
#[derive(Clone)]
pub struct Member {
    pub name: String,
    pub kind: I18nType,
    pub ns: Option<String>,
}

/// A package together with the members it exposes.
#[derive(Clone)]
pub struct I18nPackage {
    pub package_path: String,
    pub members: Vec<Member>,
}

/// A `Member` as characters.
pub struct MemberEntry {
    pub name: Seq<char>,
    pub kind: I18nType,
    pub ns: Option<Seq<char>>,
}

impl View for Member {
    type V = MemberEntry;

    open spec fn view(&self) -> MemberEntry {
        MemberEntry { name: self.name@, kind: self.kind, ns: opt_text(self.ns) }
    }
}

/// The views of a list of members.
pub open spec fn members_view(members: Seq<Member>) -> Seq<MemberEntry> {
    members.map_values(|m: Member| m@)
}

/// An `I18nPackage` as characters.
pub struct PackageView {
    pub package_path: Seq<char>,
    pub members: Seq<MemberEntry>,
}

impl View for I18nPackage {
    type V = PackageView;

    open spec fn view(&self) -> PackageView {
        PackageView { package_path: self.package_path@, members: members_view(self.members@) }
    }
}

/// The views of a list of packages.
pub open spec fn packages_view(packages: Seq<I18nPackage>) -> Seq<PackageView> {
    packages.map_values(|p: I18nPackage| p@)
}

/// The name under which the preset packages export a primitive of `kind`.
pub open spec fn preset_name(kind: I18nType) -> Seq<char> {
    match kind {
        I18nType::TMethod => "t"@,
        I18nType::Hook => "useTranslation"@,
        I18nType::TransComp => "Trans"@,
        I18nType::TranslationComp => "Translation"@,
        I18nType::HocWrapper => "withTranslation"@,
        I18nType::ObjectMemberT => "i18n"@,
    }
}

/// The preset name of `kind`, as a string slice.
pub fn preset_member_name(kind: I18nType) -> (name: &'static str)
    ensures
        name@ == preset_name(kind),
{
    match kind {
        I18nType::TMethod => "t",
        I18nType::Hook => "useTranslation",
        I18nType::TransComp => "Trans",
        I18nType::TranslationComp => "Translation",
        I18nType::HocWrapper => "withTranslation",
        I18nType::ObjectMemberT => "i18n",
    }
}

/// Whether `name` is the preset name of a primitive of kind `member_type`.
pub fn is_preset_member_name(name: &str, member_type: &I18nType) -> (preset: bool)
    ensures
        preset == (name@ == preset_name(*member_type)),
{
    text_eq(name, preset_member_name(*member_type))
}

/// The preset names of the primitives of kind `member_type`: there is exactly one.
pub fn preset_member_names(member_type: &I18nType) -> (names: Vec<&'static str>)
    ensures
        names@.len() == 1,
        names@[0]@ == preset_name(*member_type),
{
    let mut names: Vec<&'static str> = Vec::new();
    names.push(preset_member_name(*member_type));
    names
}

/// The kind whose preset name is `name`.
pub open spec fn preset_kind(name: Seq<char>) -> Option<I18nType> {
    if name == preset_name(I18nType::TMethod) {
        Some(I18nType::TMethod)
    } else if name == preset_name(I18nType::Hook) {
        Some(I18nType::Hook)
    } else if name == preset_name(I18nType::TransComp) {
        Some(I18nType::TransComp)
    } else if name == preset_name(I18nType::TranslationComp) {
        Some(I18nType::TranslationComp)
    } else if name == preset_name(I18nType::HocWrapper) {
        Some(I18nType::HocWrapper)
    } else if name == preset_name(I18nType::ObjectMemberT) {
        Some(I18nType::ObjectMemberT)
    } else {
        None
    }
}

/// The kind whose preset name is `name`.
pub fn preset_member_type(name: &str) -> (kind: Option<I18nType>)
    ensures
        kind == preset_kind(name@),
{
    if is_preset_member_name(name, &I18nType::TMethod) {
        Some(I18nType::TMethod)
    } else if is_preset_member_name(name, &I18nType::Hook) {
        Some(I18nType::Hook)
    } else if is_preset_member_name(name, &I18nType::TransComp) {
        Some(I18nType::TransComp)
    } else if is_preset_member_name(name, &I18nType::TranslationComp) {
        Some(I18nType::TranslationComp)
    } else if is_preset_member_name(name, &I18nType::HocWrapper) {
        Some(I18nType::HocWrapper)
    } else if is_preset_member_name(name, &I18nType::ObjectMemberT) {
        Some(I18nType::ObjectMemberT)
    } else {
        None
    }
}

/// The member that the preset packages export for `kind`.
pub open spec fn preset_member(kind: I18nType) -> MemberEntry {
    MemberEntry { name: preset_name(kind), kind, ns: None }
}

/// The members of a preset package.
pub open spec fn default_member_list() -> Seq<MemberEntry> {
    seq![
        preset_member(I18nType::TMethod),
        preset_member(I18nType::Hook),
        preset_member(I18nType::TransComp),
        preset_member(I18nType::TranslationComp),
        preset_member(I18nType::HocWrapper),
        preset_member(I18nType::ObjectMemberT),
    ]
}

/// Whether one of `members` is of kind `kind`.
pub open spec fn has_kind(members: Seq<MemberEntry>, kind: I18nType) -> bool {
    exists|i: int| 0 <= i < members.len() && (#[trigger] members[i]).kind == kind
}

/// `members`, with the preset member of `kind` added unless a member of that kind is there.
pub open spec fn with_kind(members: Seq<MemberEntry>, kind: I18nType) -> Seq<MemberEntry> {
    if has_kind(members, kind) {
        members
    } else {
        members.push(preset_member(kind))
    }
}

/// The members that a package with the declared `members` exposes: the
/// declared ones, or the preset ones when none is declared, and after them the
/// preset member of each kind that is still missing.
pub open spec fn supplemented(members: Seq<MemberEntry>) -> Seq<MemberEntry> {
    let declared = if members.len() == 0 {
        default_member_list()
    } else {
        members
    };
    with_kind(
        with_kind(
            with_kind(
                with_kind(
                    with_kind(with_kind(declared, I18nType::TMethod), I18nType::Hook),
                    I18nType::TransComp,
                ),
                I18nType::TranslationComp,
            ),
            I18nType::HocWrapper,
        ),
        I18nType::ObjectMemberT,
    )
}

/// Adding a preset member keeps what is there and brings in its kind.
pub proof fn lemma_with_kind(members: Seq<MemberEntry>, kind: I18nType)
    ensures
        members.is_prefix_of(with_kind(members, kind)),
        has_kind(with_kind(members, kind), kind),
        !has_kind(members, kind) ==> with_kind(members, kind).contains(preset_member(kind)),
        forall|other: I18nType| has_kind(members, other) ==> has_kind(with_kind(members, kind), other),
        forall|entry: MemberEntry|
            members.contains(entry) ==> with_kind(members, kind).contains(entry),
{
    let after = with_kind(members, kind);
    if !has_kind(members, kind) {
        assert(after[members.len() as int] == preset_member(kind));
    }
    assert forall|other: I18nType| has_kind(members, other) implies has_kind(after, other) by {
        let i = choose|i: int| 0 <= i < members.len() && (#[trigger] members[i]).kind == other;
        assert(after[i].kind == other);
    }
    assert forall|entry: MemberEntry| members.contains(entry) implies after.contains(entry) by {
        let i = choose|i: int| 0 <= i < members.len() && members[i] == entry;
        assert(after[i] == entry);
    }
}

/// A package exposes a member of every kind, whatever it declares; the
/// members it declares stay first, and for each kind that it does not declare
/// the preset member of that kind is among its members.
pub proof fn lemma_supplemented_exposes_every_kind(members: Seq<MemberEntry>, kind: I18nType)
    ensures
        has_kind(supplemented(members), kind),
        members.is_prefix_of(supplemented(members)),
        !has_kind(members, kind) ==> supplemented(members).contains(preset_member(kind)),
{
    let declared = if members.len() == 0 {
        default_member_list()
    } else {
        members
    };
    let a = with_kind(declared, I18nType::TMethod);
    let b = with_kind(a, I18nType::Hook);
    let c = with_kind(b, I18nType::TransComp);
    let d = with_kind(c, I18nType::TranslationComp);
    let e = with_kind(d, I18nType::HocWrapper);
    let f = with_kind(e, I18nType::ObjectMemberT);
    lemma_with_kind(declared, I18nType::TMethod);
    lemma_with_kind(a, I18nType::Hook);
    lemma_with_kind(b, I18nType::TransComp);
    lemma_with_kind(c, I18nType::TranslationComp);
    lemma_with_kind(d, I18nType::HocWrapper);
    lemma_with_kind(e, I18nType::ObjectMemberT);
    if members.len() == 0 {
        let defaults = default_member_list();
        assert(defaults[0] == preset_member(I18nType::TMethod));
        assert(defaults[1] == preset_member(I18nType::Hook));
        assert(defaults[2] == preset_member(I18nType::TransComp));
        assert(defaults[3] == preset_member(I18nType::TranslationComp));
        assert(defaults[4] == preset_member(I18nType::HocWrapper));
        assert(defaults[5] == preset_member(I18nType::ObjectMemberT));
    }
    if !has_kind(members, kind) {
        match kind {
            I18nType::TMethod => {
                if members.len() != 0 {
                    assert(a.contains(preset_member(kind)));
                } else {
                    assert(declared.contains(preset_member(kind)));
                }
            },
            I18nType::Hook => {
                if members.len() != 0 {
                    assert(!has_kind(a, kind)) by {
                        if has_kind(a, kind) {
                            let i = choose|i: int| 0 <= i < a.len() && (#[trigger] a[i]).kind == kind;
                            if i < declared.len() {
                                assert(declared[i].kind == kind);
                            }
                        }
                    }
                    assert(b.contains(preset_member(kind)));
                } else {
                    assert(declared.contains(preset_member(kind)));
                }
            },
            I18nType::TransComp => {
                if members.len() != 0 {
                    assert(!has_kind(b, kind)) by {
                        if has_kind(b, kind) {
                            let i = choose|i: int| 0 <= i < b.len() && (#[trigger] b[i]).kind == kind;
                            if i < declared.len() {
                                assert(declared[i].kind == kind);
                            }
                        }
                    }
                    assert(c.contains(preset_member(kind)));
                } else {
                    assert(declared.contains(preset_member(kind)));
                }
            },
            I18nType::TranslationComp => {
                if members.len() != 0 {
                    assert(!has_kind(c, kind)) by {
                        if has_kind(c, kind) {
                            let i = choose|i: int| 0 <= i < c.len() && (#[trigger] c[i]).kind == kind;
                            if i < declared.len() {
                                assert(declared[i].kind == kind);
                            }
                        }
                    }
                    assert(d.contains(preset_member(kind)));
                } else {
                    assert(declared.contains(preset_member(kind)));
                }
            },
            I18nType::HocWrapper => {
                if members.len() != 0 {
                    assert(!has_kind(d, kind)) by {
                        if has_kind(d, kind) {
                            let i = choose|i: int| 0 <= i < d.len() && (#[trigger] d[i]).kind == kind;
                            if i < declared.len() {
                                assert(declared[i].kind == kind);
                            }
                        }
                    }
                    assert(e.contains(preset_member(kind)));
                } else {
                    assert(declared.contains(preset_member(kind)));
                }
            },
            I18nType::ObjectMemberT => {
                if members.len() != 0 {
                    assert(!has_kind(e, kind)) by {
                        if has_kind(e, kind) {
                            let i = choose|i: int| 0 <= i < e.len() && (#[trigger] e[i]).kind == kind;
                            if i < declared.len() {
                                assert(declared[i].kind == kind);
                            }
                        }
                    }
                    assert(f.contains(preset_member(kind)));
                } else {
                    assert(declared.contains(preset_member(kind)));
                }
            },
        }
    }
    match kind {
        I18nType::TMethod => {},
        I18nType::Hook => {},
        I18nType::TransComp => {},
        I18nType::TranslationComp => {},
        I18nType::HocWrapper => {},
        I18nType::ObjectMemberT => {},
    }
}

/// Two kinds have different preset names.
pub proof fn lemma_preset_names_differ(a: I18nType, b: I18nType)
    requires
        a != b,
    ensures
        preset_name(a) != preset_name(b),
{
    reveal_strlit("t");
    reveal_strlit("useTranslation");
    reveal_strlit("Trans");
    reveal_strlit("Translation");
    reveal_strlit("withTranslation");
    reveal_strlit("i18n");
    assert(preset_name(I18nType::TMethod).len() == 1);
    assert(preset_name(I18nType::Hook).len() == 14);
    assert(preset_name(I18nType::TransComp).len() == 5);
    assert(preset_name(I18nType::TranslationComp).len() == 11);
    assert(preset_name(I18nType::HocWrapper).len() == 15);
    assert(preset_name(I18nType::ObjectMemberT).len() == 4);
}

/// No member after member `k` has the name of member `k`.
pub open spec fn last_named(members: Seq<MemberEntry>, k: int) -> bool {
    forall|later: int| k < later < members.len() ==> (#[trigger] members[later]).name != members[k].name
}

/// The preset member of `kind` is among `members`, and no member after it has its name.
pub open spec fn preset_settled(members: Seq<MemberEntry>, kind: I18nType) -> bool {
    exists|p: int|
        0 <= p < members.len() && #[trigger] members[p] == preset_member(kind) && last_named(
            members,
            p,
        )
}

/// What one step of supplementing does for the preset member of `kind`.
pub proof fn lemma_with_kind_settles(members: Seq<MemberEntry>, step: I18nType, kind: I18nType)
    ensures
        preset_settled(members, kind) ==> preset_settled(with_kind(members, step), kind),
        !has_kind(members, kind) && step == kind ==> preset_settled(with_kind(members, step), kind),
        !has_kind(members, kind) && step != kind ==> !has_kind(with_kind(members, step), kind),
{
    let after = with_kind(members, step);
    if preset_settled(members, kind) {
        let p = choose|p: int|
            0 <= p < members.len() && #[trigger] members[p] == preset_member(kind) && last_named(
                members,
                p,
            );
        if has_kind(members, step) {
            assert(after == members);
        } else {
            assert(members[p].kind == kind);
            assert(step != kind);
            lemma_preset_names_differ(step, kind);
            assert(after[p] == members[p]);
            assert forall|later: int| p < later < after.len() implies (#[trigger] after[later]).name
                != after[p].name by {
                if later < members.len() {
                    assert(after[later] == members[later]);
                }
            }
            assert(last_named(after, p));
        }
    }
    if !has_kind(members, kind) && step == kind {
        let p = members.len() as int;
        assert(after[p] == preset_member(kind));
        assert(last_named(after, p));
    }
    if !has_kind(members, kind) && step != kind {
        if has_kind(after, kind) {
            let i = choose|i: int| 0 <= i < after.len() && (#[trigger] after[i]).kind == kind;
            if i < members.len() {
                assert(members[i].kind == kind);
            }
        }
    }
}

/// The preset member of a kind that a package does not declare is among the
/// members that the package exposes, and no member after it has its name.
pub proof fn lemma_supplemented_settles(members: Seq<MemberEntry>, kind: I18nType)
    requires
        !has_kind(members, kind),
    ensures
        preset_settled(supplemented(members), kind),
{
    let declared = if members.len() == 0 {
        default_member_list()
    } else {
        members
    };
    let a = with_kind(declared, I18nType::TMethod);
    let b = with_kind(a, I18nType::Hook);
    let c = with_kind(b, I18nType::TransComp);
    let d = with_kind(c, I18nType::TranslationComp);
    let e = with_kind(d, I18nType::HocWrapper);
    if members.len() == 0 {
        let p: int = match kind {
            I18nType::TMethod => 0,
            I18nType::Hook => 1,
            I18nType::TransComp => 2,
            I18nType::TranslationComp => 3,
            I18nType::HocWrapper => 4,
            I18nType::ObjectMemberT => 5,
        };
        assert(declared[p] == preset_member(kind));
        assert forall|later: int| p < later < declared.len() implies (#[trigger] declared[later]).name
            != declared[p].name by {
            lemma_preset_names_differ(declared[later].kind, kind);
        }
        assert(last_named(declared, p));
        assert(preset_settled(declared, kind));
    }
    lemma_with_kind_settles(declared, I18nType::TMethod, kind);
    lemma_with_kind_settles(a, I18nType::Hook, kind);
    lemma_with_kind_settles(b, I18nType::TransComp, kind);
    lemma_with_kind_settles(c, I18nType::TranslationComp, kind);
    lemma_with_kind_settles(d, I18nType::HocWrapper, kind);
    lemma_with_kind_settles(e, I18nType::ObjectMemberT, kind);
    match kind {
        I18nType::TMethod => {},
        I18nType::Hook => {},
        I18nType::TransComp => {},
        I18nType::TranslationComp => {},
        I18nType::HocWrapper => {},
        I18nType::ObjectMemberT => {},
    }
}

fn preset_entry(kind: I18nType) -> (member: Member)
    ensures
        member@ == preset_member(kind),
{
    Member { name: preset_member_name(kind).to_owned(), kind, ns: None }
}

/// The members of a preset package.
pub fn default_members() -> (members: Vec<Member>)
    ensures
        members_view(members@) == default_member_list(),
{
    let mut members: Vec<Member> = Vec::new();
    members.push(preset_entry(I18nType::TMethod));
    members.push(preset_entry(I18nType::Hook));
    members.push(preset_entry(I18nType::TransComp));
    members.push(preset_entry(I18nType::TranslationComp));
    members.push(preset_entry(I18nType::HocWrapper));
    members.push(preset_entry(I18nType::ObjectMemberT));
    assert(members_view(members@) =~= default_member_list());
    members
}

fn contains_kind(members: &Vec<Member>, kind: I18nType) -> (found: bool)
    ensures
        found == has_kind(members_view(members@), kind),
{
    let mut i: usize = 0;
    while i < members.len()
        invariant
            i <= members.len(),
            forall|k: int| 0 <= k < i ==> (#[trigger] members_view(members@)[k]).kind != kind,
        decreases members.len() - i,
    {
        if members[i].kind == kind {
            assert(members_view(members@)[i as int].kind == kind);
            return true;
        }
        i += 1;
    }
    false
}

fn add_kind(members: &mut Vec<Member>, kind: I18nType)
    ensures
        members_view(final(members)@) == with_kind(members_view(old(members)@), kind),
{
    if !contains_kind(members, kind) {
        members.push(preset_entry(kind));
        assert(members_view(members@) =~= members_view(old(members)@).push(preset_member(kind)));
    }
}

/// A copy of a member.
pub fn clone_member(member: &Member) -> (copy: Member)
    ensures
        copy == *member,
{
    Member { name: member.name.clone(), kind: member.kind, ns: clone_opt_text(&member.ns) }
}

/// The members that a package with the declared `members` exposes.
pub fn supplement_members(members: &Vec<Member>) -> (all: Vec<Member>)
    ensures
        members_view(all@) == supplemented(members_view(members@)),
{
    let mut all: Vec<Member> = Vec::new();
    if members.len() == 0 {
        all = default_members();
    } else {
        let mut i: usize = 0;
        while i < members.len()
            invariant
                i <= members.len(),
                all.len() == i,
                forall|k: int| 0 <= k < i ==> all[k] == members[k],
            decreases members.len() - i,
        {
            all.push(clone_member(&members[i]));
            i += 1;
        }
        assert(members_view(all@) =~= members_view(members@));
    }
    add_kind(&mut all, I18nType::TMethod);
    add_kind(&mut all, I18nType::Hook);
    add_kind(&mut all, I18nType::TransComp);
    add_kind(&mut all, I18nType::TranslationComp);
    add_kind(&mut all, I18nType::HocWrapper);
    add_kind(&mut all, I18nType::ObjectMemberT);
    all
}

/// The user packages `from..` that resolve, each under its resolved path and
/// with its members supplemented.
pub open spec fn user_packages_from(packages: Seq<PackageView>, resolutions: Seq<Resolution>, from: int) -> Seq<
    PackageView,
>
    decreases packages.len() - from,
{
    if from < 0 || from >= packages.len() {
        Seq::empty()
    } else {
        let rest = user_packages_from(packages, resolutions, from + 1);
        match resolved_path(resolutions, packages[from].package_path) {
            Some(path) => seq![
                PackageView { package_path: path, members: supplemented(packages[from].members) },
            ] + rest,
            None => rest,
        }
    }
}

/// The preset package `name`, if it resolves.
pub open spec fn preset_package(resolutions: Seq<Resolution>, name: Seq<char>) -> Seq<PackageView> {
    match resolved_path(resolutions, name) {
        Some(path) => seq![PackageView { package_path: path, members: default_member_list() }],
        None => Seq::empty(),
    }
}

/// The preset packages that resolve: `i18next` and `react-i18next`.
pub open spec fn preset_packages(resolutions: Seq<Resolution>) -> Seq<PackageView> {
    preset_package(resolutions, "i18next"@) + preset_package(resolutions, "react-i18next"@)
}

/// The packages that a run knows: the user packages that resolve, and after
/// them the preset ones.
pub open spec fn known_packages(packages: Option<Seq<PackageView>>, resolutions: Seq<Resolution>) -> Seq<
    PackageView,
> {
    (match packages {
        Some(list) => user_packages_from(list, resolutions, 0),
        None => Seq::empty(),
    }) + preset_packages(resolutions)
}

/// The view of an optional list of packages.
pub open spec fn opt_packages(packages: Option<Vec<I18nPackage>>) -> Option<Seq<PackageView>> {
    match packages {
        Some(list) => Some(packages_view(list@)),
        None => None,
    }
}

fn add_preset_package(resolved: &Vec<Resolution>, name: &str, into: &mut Vec<I18nPackage>)
    ensures
        packages_view(final(into)@) == packages_view(old(into)@) + preset_package(resolved@, name@),
{
    match find_resolution(resolved, name) {
        Some(path) => {
            let package = I18nPackage { package_path: path.clone(), members: default_members() };
            into.push(package);
            assert(packages_view(into@) =~= packages_view(old(into)@) + seq![package@]);
        },
        None => {
            assert(packages_view(into@) =~= packages_view(old(into)@) + Seq::<PackageView>::empty());
        },
    }
}

impl Analyzer {
    /// The preset packages that resolve, according to the answers `resolved`.
    pub fn make_preset_i18n_packages(resolved: &Vec<Resolution>) -> (packages: Vec<I18nPackage>)
        ensures
            packages_view(packages@) == preset_packages(resolved@),
    {
        let mut packages: Vec<I18nPackage> = Vec::new();
        assert(packages_view(packages@) =~= Seq::<PackageView>::empty());
        add_preset_package(resolved, "i18next", &mut packages);
        add_preset_package(resolved, "react-i18next", &mut packages);
        assert(packages_view(packages@) =~= preset_packages(resolved@));
        packages
    }

    /// The packages that a run knows, according to the answers `resolved`.
    pub fn extend_i18n_packages(extend_packages: Option<Vec<I18nPackage>>, resolved: &Vec<Resolution>) -> (packages:
        Vec<I18nPackage>)
        ensures
            packages_view(packages@) == known_packages(opt_packages(extend_packages), resolved@),
    {
        let mut packages: Vec<I18nPackage> = Vec::new();
        assert(packages_view(packages@) =~= Seq::<PackageView>::empty());
        match &extend_packages {
            Some(list) => {
                let ghost views = packages_view(list@);
                let mut i: usize = 0;
                assert(packages_view(packages@) + user_packages_from(views, resolved@, 0)
                    =~= user_packages_from(views, resolved@, 0));
                while i < list.len()
                    invariant
                        i <= list.len(),
                        views == packages_view(list@),
                        packages_view(packages@) + user_packages_from(views, resolved@, i as int)
                            == user_packages_from(views, resolved@, 0),
                    decreases list.len() - i,
                {
                    let ghost before = packages_view(packages@);
                    assert(views[i as int] == list[i as int]@);
                    match find_resolution(resolved, list[i].package_path.as_str()) {
                        Some(path) => {
                            let package = I18nPackage {
                                package_path: path.clone(),
                                members: supplement_members(&list[i].members),
                            };
                            packages.push(package);
                            assert(packages_view(packages@) =~= before.push(package@));
                            assert(before.push(package@) + user_packages_from(views, resolved@, i + 1)
                                =~= before + user_packages_from(views, resolved@, i as int));
                        },
                        None => {},
                    }
                    i += 1;
                }
                assert(packages_view(packages@) + Seq::<PackageView>::empty() =~= packages_view(
                    packages@,
                ));
            },
            None => {},
        }
        let ghost users = packages_view(packages@);
        add_preset_package(resolved, "i18next", &mut packages);
        add_preset_package(resolved, "react-i18next", &mut packages);
        assert(packages_view(packages@) =~= users + preset_packages(resolved@));
        packages
    }
}

/// The specifiers that the resolver has to answer before the packages of a run
/// are known: the paths of the user packages and the names of the preset ones.
pub fn package_specifiers(extend_packages: &Option<Vec<I18nPackage>>) -> (specifiers: Vec<String>)
    ensures
        specifiers@.len() == (match extend_packages {
            Some(list) => list.len() + 2,
            None => 2,
        }),
        forall|i: int|
            0 <= i < specifiers.len() - 2 ==> specifiers[i]@
                == extend_packages->0[i].package_path@,
        specifiers[specifiers.len() - 2]@ == "i18next"@,
        specifiers[specifiers.len() - 1]@ == "react-i18next"@,
{
    let mut specifiers: Vec<String> = Vec::new();
    match extend_packages {
        Some(list) => {
            let mut i: usize = 0;
            while i < list.len()
                invariant
                    i <= list.len(),
                    specifiers.len() == i,
                    forall|k: int| 0 <= k < i ==> specifiers[k]@ == list[k].package_path@,
                decreases list.len() - i,
            {
                specifiers.push(list[i].package_path.clone());
                i += 1;
            }
        },
        None => {},
    }
    specifiers.push("i18next".to_owned());
    specifiers.push("react-i18next".to_owned());
    specifiers
}

} // verus!
