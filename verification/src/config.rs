//! The operator's settings: an email and the role of each profile.

use crate::table::{bind_all, distinct_names, lemma_bind_all_lift, lemma_lift_distinct, lemma_place_of, lift, map_of, Table};
use crate::error::{AssumeError, ErrorView};
use vstd::prelude::*;

verus! {

/// The operator's email and the role to assume for each profile.
pub struct AwsSetterConfig {
    pub email: String,
    profiles: Table<String>,
}

/// A list of profiles and roles as the pairs of their texts.
pub open spec fn role_pairs(list: Seq<(String, String)>) -> Seq<(Seq<char>, Seq<char>)> {
    list.map_values(|e: (String, String)| (e.0@, e.1@))
}

impl AwsSetterConfig {
    /// Each profile with its role, in the order in which the profiles were
    /// first named.
    pub closed spec fn bindings(&self) -> Seq<(Seq<char>, Seq<char>)> {
        lift(self.profiles.pairs(), |role: String| role@)
    }

    /// The text of the operator's email.
    pub closed spec fn email_text(&self) -> Seq<char> {
        self.email@
    }

    /// The role of each profile.
    pub open spec fn roles(&self) -> Map<Seq<char>, Seq<char>> {
        map_of(self.bindings())
    }

    /// The configured profiles, each once.
    pub open spec fn profile_names(&self) -> Seq<Seq<char>> {
        self.bindings().map_values(|b: (Seq<char>, Seq<char>)| b.0)
    }

    /// The validity of a configuration: no profile is bound twice.
    pub closed spec fn wf(&self) -> bool {
        self.profiles.wf()
    }

    /// In a valid configuration the profiles are distinct, and they are the
    /// profiles that have a role.
    pub proof fn lemma_profiles(&self)
        requires
            self.wf(),
        ensures
            distinct_names(self.bindings()),
            self.profile_names().no_duplicates(),
            forall|name: Seq<char>| self.profile_names().contains(name) <==> self.roles().contains_key(name),
    {
        self.profiles.lemma_wf();
        let pairs = self.profiles.pairs();
        let bindings = self.bindings();
        lemma_lift_distinct(pairs, |role: String| role@);
        let names = self.profile_names();
        assert forall|i: int, j: int| 0 <= i < names.len() && 0 <= j < names.len() && i != j implies names[i]
            != names[j] by {
            assert(bindings[i].0 == names[i] && bindings[j].0 == names[j]);
        }
        assert forall|name: Seq<char>| names.contains(name) <==> self.roles().contains_key(name) by {
            if names.contains(name) {
                let i = choose|i: int| 0 <= i < names.len() && names[i] == name;
                assert(bindings[i].0 == name);
            }
            if self.roles().contains_key(name) {
                let i = choose|i: int| 0 <= i < bindings.len() && #[trigger] bindings[i].0 == name;
                assert(names[i] == name);
            }
        }
    }

    /// The configuration with the given email in which each pair of
    /// `profiles` binds a profile to its role; where a profile is named twice
    /// the later role stands.
    pub fn new(email: String, profiles: Vec<(String, String)>) -> (config: Self)
        ensures
            config.wf(),
            config.email_text() == email@,
            config.bindings() == bind_all(role_pairs(profiles@)),
    {
        let ghost list = profiles@;
        let table = Table::from_pairs(profiles);
        let config = AwsSetterConfig { email, profiles: table };
        proof {
            let raw = list.map_values(|e: (String, String)| (e.0@, e.1));
            lemma_bind_all_lift(raw, |role: String| role@);
            assert(lift(raw, |role: String| role@) =~= role_pairs(list));
        }
        config
    }

    /// The role configured for a profile, if the profile is configured.
    pub fn get_role(&self, profile: &str) -> (role: Option<&String>)
        ensures
            self.wf(),
            role is Some <==> self.roles().contains_key(profile@),
            role matches Some(found) ==> found@ == self.roles()[profile@],
    {
        match self.profiles.position(profile) {
            Some(i) => {
                let role = self.profiles.value_at(i);
                proof {
                    self.lemma_profiles();
                    assert(self.bindings()[i as int] == (profile@, role@));
                    lemma_place_of(self.bindings(), i as int);
                }
                Some(role)
            },
            None => {
                proof {
                    if self.roles().contains_key(profile@) {
                        let i = choose|i: int|
                            0 <= i < self.bindings().len() && #[trigger] self.bindings()[i].0 == profile@;
                        assert(self.profiles.pairs()[i].0 == profile@);
                    }
                }
                None
            },
        }
    }

    /// The role to assume for a profile. A profile without a configured role
    /// is an error, known before any command is run.
    pub fn resolve(&self, profile: &str) -> (role: Result<&String, AssumeError>)
        ensures
            self.wf(),
            role is Ok <==> self.roles().contains_key(profile@),
            role matches Ok(found) ==> found@ == self.roles()[profile@],
            role matches Err(error) ==> error@ == ErrorView::UnknownProfile(profile@),
    {
        match self.get_role(profile) {
            Some(role) => Ok(role),
            None => Err(AssumeError::UnknownProfile(profile.to_owned())),
        }
    }

    /// The configured profiles, each once, in the order in which they were
    /// first named.
    pub fn list_profiles(&self) -> (names: Vec<&String>)
        ensures
            self.wf(),
            names@.map_values(|name: &String| name@) == self.profile_names(),
    {
        let mut names: Vec<&String> = Vec::new();
        let count = self.profiles.len();
        let mut i: usize = 0;
        while i < count
            invariant
                i <= count,
                count == self.profiles.pairs().len(),
                names@.map_values(|name: &String| name@) == self.profile_names().take(i as int),
            decreases count - i,
        {
            let name = self.profiles.name_at(i);
            proof {
                assert(self.profile_names().take(i + 1) =~= self.profile_names().take(i as int).push(name@));
            }
            names.push(name);
            proof {
                assert(names@.map_values(|name: &String| name@) =~= self.profile_names().take(i + 1));
            }
            i += 1;
        }
        assert(self.profile_names().take(count as int) =~= self.profile_names());
        names
    }
}

} // verus!
