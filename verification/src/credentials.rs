//! The credentials file: one section per profile, three fields per section.

use crate::ini::{
    field_of, group, item_views, items_text, lemma_records_fail, parse_items, records_of, records_of_items,
    records_of_text, sections_of, values_of, write_items, IniItem, ItemView, LoadError, Section, SectionView,
};
use crate::sts::{Credentials, CredentialsView};
use crate::table::{
    bind, distinct_names, has_name, lemma_bind_lift, lemma_lift_distinct, lemma_place_of, lift, map_of, place_of, Table,
};
use vstd::prelude::*;

verus! {

/// The entry of one profile in the credentials file.
#[derive(Debug, Clone, PartialEq, Eq)]
pub struct CredentialsConfigEntry {
    pub aws_access_key_id: String,
    pub aws_secret_access_key: String,
    pub aws_session_token: String,
}

/// An entry, with the texts of its fields.
pub struct EntryView {
    pub aws_access_key_id: Seq<char>,
    pub aws_secret_access_key: Seq<char>,
    pub aws_session_token: Seq<char>,
}

impl View for CredentialsConfigEntry {
    type V = EntryView;

    open spec fn view(&self) -> EntryView {
        EntryView {
            aws_access_key_id: self.aws_access_key_id@,
            aws_secret_access_key: self.aws_secret_access_key@,
            aws_session_token: self.aws_session_token@,
        }
    }
}

/// The entry that a profile has before it gets credentials.
pub open spec fn placeholder() -> EntryView {
    EntryView {
        aws_access_key_id: "Default"@,
        aws_secret_access_key: "Default"@,
        aws_session_token: "Default"@,
    }
}

/// An entry after the key, the secret and the token of fresh credentials
/// have been written over its own.
pub open spec fn overwrite(base: EntryView, credentials: CredentialsView) -> EntryView {
    EntryView {
        aws_access_key_id: credentials.access_key_id,
        aws_secret_access_key: credentials.secret_access_key,
        aws_session_token: credentials.session_token,
        ..base
    }
}

impl Default for CredentialsConfigEntry {
    fn default() -> (entry: Self)
        ensures
            entry@ == placeholder(),
    {
        CredentialsConfigEntry {
            aws_access_key_id: "Default".to_owned(),
            aws_secret_access_key: "Default".to_owned(),
            aws_session_token: "Default".to_owned(),
        }
    }
}

impl CredentialsConfigEntry {
    /// A copy of the entry.
    pub fn duplicate(&self) -> (copy: Self)
        ensures
            copy@ == self@,
    {
        CredentialsConfigEntry {
            aws_access_key_id: self.aws_access_key_id.clone(),
            aws_secret_access_key: self.aws_secret_access_key.clone(),
            aws_session_token: self.aws_session_token.clone(),
        }
    }

    /// Writes the key, the secret and the token of `credentials` over the
    /// entry's own.
    pub fn update(&mut self, credentials: &Credentials)
        ensures
            final(self)@ == overwrite(old(self)@, credentials@),
    {
        self.aws_access_key_id = credentials.access_key_id.clone();
        self.aws_secret_access_key = credentials.secret_access_key.clone();
        self.aws_session_token = credentials.session_token.clone();
    }
}

/// The credentials of every profile: what the credentials file holds.
pub struct CredentialStore {
    table: Table<CredentialsConfigEntry>,
}

/// The entry that fresh credentials are written over: the profile's own
/// where it has one, the placeholder where it has none.
pub open spec fn base_entry(pairs: Seq<(Seq<char>, EntryView)>, profile: Seq<char>) -> EntryView {
    if has_name(pairs, profile) {
        pairs[place_of(pairs, profile)].1
    } else {
        placeholder()
    }
}

/// The entries after fresh credentials have been merged in for a profile.
pub open spec fn merged(
    pairs: Seq<(Seq<char>, EntryView)>,
    profile: Seq<char>,
    credentials: CredentialsView,
) -> Seq<(Seq<char>, EntryView)> {
    bind(pairs, profile, overwrite(base_entry(pairs, profile), credentials))
}

impl View for CredentialStore {
    type V = Map<Seq<char>, EntryView>;

    open spec fn view(&self) -> Map<Seq<char>, EntryView> {
        map_of(self.pairs())
    }
}

impl CredentialStore {
    /// Each profile with its entry, in the order of the file.
    pub closed spec fn pairs(&self) -> Seq<(Seq<char>, EntryView)> {
        lift(self.table.pairs(), |entry: CredentialsConfigEntry| entry@)
    }

    /// The validity of a store: no profile has two entries.
    pub closed spec fn wf(&self) -> bool {
        self.table.wf()
    }

    /// In a valid store the profiles are distinct.
    pub proof fn lemma_wf(&self)
        requires
            self.wf(),
        ensures
            distinct_names(self.pairs()),
    {
        self.table.lemma_wf();
        lemma_lift_distinct(self.table.pairs(), |entry: CredentialsConfigEntry| entry@);
    }

    /// Tells the verifier what holds of every store that executable code
    /// has: it is valid.
    pub(crate) fn recall_wf(&self)
        ensures
            self.wf(),
    {
        self.table.recall_wf();
    }

    /// A store without profiles.
    pub fn new() -> (store: Self)
        ensures
            store.wf(),
            store.pairs() == Seq::<(Seq<char>, EntryView)>::empty(),
    {
        let store = CredentialStore { table: Table::new() };
        assert(store.pairs() =~= Seq::<(Seq<char>, EntryView)>::empty());
        store
    }

    /// The number of profiles.
    pub fn len(&self) -> (n: usize)
        ensures
            self.wf(),
            n == self.pairs().len(),
    {
        self.table.len()
    }

    /// The entry of a profile, if it has one.
    pub fn get(&self, profile: &str) -> (entry: Option<&CredentialsConfigEntry>)
        ensures
            self.wf(),
            entry is Some <==> self@.contains_key(profile@),
            entry matches Some(found) ==> found@ == self@[profile@],
    {
        match self.table.position(profile) {
            Some(i) => {
                proof {
                    self.lemma_wf();
                    assert(self.pairs()[i as int].0 == profile@);
                    lemma_place_of(self.pairs(), i as int);
                }
                Some(self.table.value_at(i))
            },
            None => {
                proof {
                    self.table.lemma_wf();
                    lemma_lift_distinct(self.table.pairs(), |entry: CredentialsConfigEntry| entry@);
                }
                None
            },
        }
    }

    /// Merges fresh credentials into the entry of one profile. A profile
    /// without an entry first gets the placeholder; then the key, the secret
    /// and the token are written over the entry's own. No other profile's
    /// entry changes, and no profile changes its place.
    pub fn merge(&mut self, profile: &str, credentials: &Credentials)
        ensures
            final(self).wf(),
            final(self).pairs() == merged(old(self).pairs(), profile@, credentials@),
            final(self)@ == old(self)@.insert(
                profile@,
                overwrite(
                    if old(self)@.contains_key(profile@) {
                        old(self)@[profile@]
                    } else {
                        placeholder()
                    },
                    credentials@,
                ),
            ),
            forall|other: Seq<char>|
                other != profile@ ==> (final(self)@.contains_key(other) <==> old(self)@.contains_key(other)),
            forall|other: Seq<char>|
                other != profile@ && old(self)@.contains_key(other) ==> final(self)@[other] == old(self)@[other],
    {
        let ghost before = self.pairs();
        let ghost raw = self.table.pairs();
        let mut entry = match self.table.get(profile) {
            Some(found) => found.duplicate(),
            None => CredentialsConfigEntry::default(),
        };
        proof {
            self.table.lemma_wf();
            self.lemma_wf();
            lemma_bind_lift(raw, profile@, entry, |entry: CredentialsConfigEntry| entry@);
            if has_name(before, profile@) {
                let i = place_of(raw, profile@);
                assert(before[i].0 == profile@);
                lemma_place_of(before, i);
                lemma_place_of(raw, i);
            }
            assert(entry@ == base_entry(before, profile@));
        }
        entry.update(credentials);
        proof {
            lemma_bind_lift(raw, profile@, entry, |entry: CredentialsConfigEntry| entry@);
            crate::table::lemma_bind(before, profile@, entry@);
        }
        self.table.insert(profile.to_owned(), entry);
    }
}

/// The assignments of an entry's section, in the order of the file.
pub open spec fn entry_pairs(entry: EntryView) -> Seq<(Seq<char>, Seq<char>)> {
    seq![
        ("aws_access_key_id"@, entry.aws_access_key_id),
        ("aws_secret_access_key"@, entry.aws_secret_access_key),
        ("aws_session_token"@, entry.aws_session_token),
    ]
}

/// The lines of one profile: its section line, then its three assignments.
pub open spec fn entry_items(profile: Seq<char>, entry: EntryView) -> Seq<ItemView> {
    seq![
        ItemView::Section { name: profile },
        ItemView::Value { key: "aws_access_key_id"@, value: entry.aws_access_key_id },
        ItemView::Value { key: "aws_secret_access_key"@, value: entry.aws_secret_access_key },
        ItemView::Value { key: "aws_session_token"@, value: entry.aws_session_token },
    ]
}

/// The lines of the whole file: the lines of each profile in order.
pub open spec fn store_items(pairs: Seq<(Seq<char>, EntryView)>) -> Seq<ItemView>
    decreases pairs.len(),
{
    if pairs.len() == 0 {
        Seq::empty()
    } else {
        store_items(pairs.drop_last()) + entry_items(pairs.last().0, pairs.last().1)
    }
}

/// The text of the whole file.
pub open spec fn store_text(pairs: Seq<(Seq<char>, EntryView)>) -> Seq<char> {
    items_text(store_items(pairs))
}

/// The entry that a section's assignments give: each of the three fields
/// exactly once, whatever else the section assigns.
pub open spec fn entry_of(pairs: Seq<(Seq<char>, Seq<char>)>) -> Result<EntryView, LoadError> {
    match field_of(pairs, "aws_access_key_id"@) {
        Err(error) => Err(error),
        Ok(key) => match field_of(pairs, "aws_secret_access_key"@) {
            Err(error) => Err(error),
            Ok(secret) => match field_of(pairs, "aws_session_token"@) {
                Err(error) => Err(error),
                Ok(token) => Ok(
                    EntryView { aws_access_key_id: key, aws_secret_access_key: secret, aws_session_token: token },
                ),
            },
        },
    }
}

/// The entries that a list of sections gives. Of two sections with one name
/// the later one gives the entry. The first section that gives no entry
/// decides the error.
pub open spec fn entries_of(sections: Seq<SectionView>) -> Result<Seq<(Seq<char>, EntryView)>, LoadError> {
    records_of(sections, |pairs: Seq<(Seq<char>, Seq<char>)>| entry_of(pairs))
}

/// The entries that the lines of a file give.
pub open spec fn store_of_items(items: Seq<ItemView>) -> Result<Seq<(Seq<char>, EntryView)>, LoadError> {
    records_of_items(items, |pairs: Seq<(Seq<char>, Seq<char>)>| entry_of(pairs))
}

/// The entries that the text of a file gives.
pub open spec fn store_of_text(text: Seq<char>) -> Result<Seq<(Seq<char>, EntryView)>, LoadError> {
    records_of_text(text, |pairs: Seq<(Seq<char>, Seq<char>)>| entry_of(pairs))
}

impl CredentialsConfigEntry {
    /// The entry that a section holds.
    pub fn from_section(section: &Section) -> (entry: Result<Self, LoadError>)
        ensures
            match entry {
                Ok(found) => entry_of(section@.pairs) == Ok::<EntryView, LoadError>(found@),
                Err(error) => entry_of(section@.pairs) == Err::<EntryView, LoadError>(error),
            },
    {
        let key = match section.field("aws_access_key_id") {
            Ok(text) => text,
            Err(error) => { return Err(error); },
        };
        let secret = match section.field("aws_secret_access_key") {
            Ok(text) => text,
            Err(error) => { return Err(error); },
        };
        let token = match section.field("aws_session_token") {
            Ok(text) => text,
            Err(error) => { return Err(error); },
        };
        Ok(CredentialsConfigEntry { aws_access_key_id: key, aws_secret_access_key: secret, aws_session_token: token })
    }

    /// The lines of the entry under a profile's name.
    pub fn items(&self, profile: &str) -> (items: Vec<IniItem>)
        ensures
            item_views(items@) == entry_items(profile@, self@),
    {
        let mut items: Vec<IniItem> = Vec::new();
        items.push(IniItem::Section { name: profile.to_owned() });
        items.push(IniItem::Value { key: "aws_access_key_id".to_owned(), value: self.aws_access_key_id.clone() });
        items.push(
            IniItem::Value { key: "aws_secret_access_key".to_owned(), value: self.aws_secret_access_key.clone() },
        );
        items.push(IniItem::Value { key: "aws_session_token".to_owned(), value: self.aws_session_token.clone() });
        assert(item_views(items@) =~= entry_items(profile@, self@));
        items
    }
}

impl CredentialStore {
    /// The lines of the file that holds the store.
    pub fn items(&self) -> (items: Vec<IniItem>)
        ensures
            self.wf(),
            item_views(items@) == store_items(self.pairs()),
    {
        let mut items: Vec<IniItem> = Vec::new();
        let count = self.table.len();
        let mut i: usize = 0;
        assert(item_views(items@) =~= store_items(self.pairs().take(0)));
        while i < count
            invariant
                i <= count,
                count == self.pairs().len(),
                count == self.table.pairs().len(),
                item_views(items@) == store_items(self.pairs().take(i as int)),
            decreases count - i,
        {
            let mut lines = self.table.value_at(i).items(self.table.name_at(i).as_str());
            proof {
                let pairs = self.pairs();
                assert(pairs.take(i + 1).drop_last() =~= pairs.take(i as int));
                assert(pairs.take(i + 1).last() == pairs[i as int]);
                assert(item_views(items@ + lines@) =~= item_views(items@) + item_views(lines@));
            }
            items.append(&mut lines);
            i += 1;
        }
        assert(self.pairs().take(count as int) =~= self.pairs());
        items
    }

    /// The text of the file that holds the store: for each profile in order
    /// its section line and its three assignments.
    pub fn to_text(&self) -> (text: String)
        ensures
            self.wf(),
            text@ == store_text(self.pairs()),
    {
        let items = self.items();
        write_items(&items)
    }

    /// The store that the sections of a file hold.
    pub fn from_sections(sections: &Vec<Section>) -> (store: Result<Self, LoadError>)
        ensures
            match store {
                Ok(loaded) => loaded.wf() && entries_of(crate::ini::section_views(sections@)) == Ok::<
                    Seq<(Seq<char>, EntryView)>,
                    LoadError,
                >(loaded.pairs()),
                Err(error) => entries_of(crate::ini::section_views(sections@)) == Err::<
                    Seq<(Seq<char>, EntryView)>,
                    LoadError,
                >(error),
            },
    {
        let ghost views = crate::ini::section_views(sections@);
        let mut store = CredentialStore::new();
        let mut i: usize = 0;
        while i < sections.len()
            invariant
                i <= sections.len(),
                views == crate::ini::section_views(sections@),
                store.wf(),
                entries_of(views.take(i as int)) == Ok::<Seq<(Seq<char>, EntryView)>, LoadError>(store.pairs()),
            decreases sections.len() - i,
        {
            proof {
                assert(views.take(i + 1).drop_last() =~= views.take(i as int));
                assert(views.take(i + 1).last() == sections@[i as int]@);
            }
            match CredentialsConfigEntry::from_section(&sections[i]) {
                Err(error) => {
                    proof {
                        lemma_records_fail(views, |pairs: Seq<(Seq<char>, Seq<char>)>| entry_of(pairs), i as int + 1);
                    }
                    return Err(error);
                },
                Ok(entry) => {
                    proof {
                        store.table.lemma_wf();
                        lemma_bind_lift(
                            store.table.pairs(),
                            sections@[i as int].name@,
                            entry,
                            |entry: CredentialsConfigEntry| entry@,
                        );
                    }
                    store.table.insert(sections[i].name.clone(), entry);
                },
            }
            i += 1;
        }
        assert(views.take(sections.len() as int) =~= views);
        Ok(store)
    }

    /// The store that the lines of a file hold.
    pub fn from_items(items: &Vec<IniItem>) -> (store: Result<Self, LoadError>)
        ensures
            match store {
                Ok(loaded) => loaded.wf() && store_of_items(item_views(items@)) == Ok::<
                    Seq<(Seq<char>, EntryView)>,
                    LoadError,
                >(loaded.pairs()),
                Err(error) => store_of_items(item_views(items@)) == Err::<Seq<(Seq<char>, EntryView)>, LoadError>(
                    error,
                ),
            },
    {
        match group(items) {
            None => Err(LoadError::OrphanValue),
            Some(sections) => CredentialStore::from_sections(&sections),
        }
    }
}

/// Reads the credentials file from its text.
pub fn load_credentials(text: &str) -> (store: Result<CredentialStore, LoadError>)
    ensures
        match store {
            Ok(loaded) => loaded.wf() && store_of_text(text@) == Ok::<Seq<(Seq<char>, EntryView)>, LoadError>(
                loaded.pairs(),
            ),
            Err(error) => store_of_text(text@) == Err::<Seq<(Seq<char>, EntryView)>, LoadError>(error),
        },
{
    match parse_items(text) {
        None => Err(LoadError::Syntax),
        Some(items) => CredentialStore::from_items(&items),
    }
}

/// The sections that the lines of a store form: one per profile, with the
/// three assignments of its entry.
pub open spec fn store_sections(pairs: Seq<(Seq<char>, EntryView)>) -> Seq<SectionView> {
    pairs.map_values(|p: (Seq<char>, EntryView)| SectionView { name: p.0, pairs: entry_pairs(p.1) })
}

/// The lines of a store form its sections.
proof fn lemma_sections_of_store(pairs: Seq<(Seq<char>, EntryView)>)
    ensures
        sections_of(store_items(pairs)) == Some(store_sections(pairs)),
    decreases pairs.len(),
{
    if pairs.len() == 0 {
        assert(store_sections(pairs) =~= Seq::<SectionView>::empty());
    } else {
        let front = pairs.drop_last();
        lemma_sections_of_store(front);
        let (profile, entry) = pairs.last();
        let lines = entry_items(profile, entry);
        let i0 = store_items(front);
        let i1 = i0.push(lines[0]);
        let i2 = i1.push(lines[1]);
        let i3 = i2.push(lines[2]);
        let i4 = i3.push(lines[3]);
        assert(i1.drop_last() =~= i0 && i2.drop_last() =~= i1 && i3.drop_last() =~= i2 && i4.drop_last() =~= i3);
        assert(store_items(pairs) =~= i4);
        let s0 = store_sections(front);
        let s1 = s0.push(SectionView { name: profile, pairs: Seq::empty() });
        assert(sections_of(i1) == Some(s1));
        let s2 = s1.update(s1.len() - 1, SectionView { name: profile, pairs: seq![entry_pairs(entry)[0]] });
        assert(s1.last().pairs.push(entry_pairs(entry)[0]) =~= seq![entry_pairs(entry)[0]]);
        assert(sections_of(i2) == Some(s2));
        let s3 = s2.update(
            s2.len() - 1,
            SectionView { name: profile, pairs: seq![entry_pairs(entry)[0], entry_pairs(entry)[1]] },
        );
        assert(s2.last().pairs.push(entry_pairs(entry)[1]) =~= seq![entry_pairs(entry)[0], entry_pairs(entry)[1]]);
        assert(sections_of(i3) == Some(s3));
        let s4 = s3.update(s3.len() - 1, SectionView { name: profile, pairs: entry_pairs(entry) });
        assert(s3.last().pairs.push(entry_pairs(entry)[2]) =~= entry_pairs(entry));
        assert(sections_of(i4) == Some(s4));
        assert(s4 =~= store_sections(pairs));
    }
}

/// The three field names differ from one another.
proof fn lemma_field_names_differ()
    ensures
        "aws_access_key_id"@ != "aws_secret_access_key"@,
        "aws_access_key_id"@ != "aws_session_token"@,
        "aws_secret_access_key"@ != "aws_session_token"@,
{
    reveal_strlit("aws_access_key_id");
    reveal_strlit("aws_secret_access_key");
    reveal_strlit("aws_session_token");
    assert("aws_access_key_id"@.len() == 17);
    assert("aws_secret_access_key"@.len() == 21);
    assert("aws_session_token"@.len() == 17);
    assert("aws_access_key_id"@[4] == 'a');
    assert("aws_session_token"@[4] == 's');
}

/// The assignments that an entry writes give the entry back.
proof fn lemma_entry_of_pairs(entry: EntryView)
    ensures
        entry_of(entry_pairs(entry)) == Ok::<EntryView, LoadError>(entry),
{
    lemma_field_names_differ();
    let pairs = entry_pairs(entry);
    let none = Seq::<(Seq<char>, Seq<char>)>::empty();
    let one = none.push(pairs[0]);
    let two = one.push(pairs[1]);
    lemma_values_of_push(none, pairs[0], "aws_access_key_id"@);
    lemma_values_of_push(none, pairs[0], "aws_secret_access_key"@);
    lemma_values_of_push(none, pairs[0], "aws_session_token"@);
    lemma_values_of_push(one, pairs[1], "aws_access_key_id"@);
    lemma_values_of_push(one, pairs[1], "aws_secret_access_key"@);
    lemma_values_of_push(one, pairs[1], "aws_session_token"@);
    lemma_values_of_push(two, pairs[2], "aws_access_key_id"@);
    lemma_values_of_push(two, pairs[2], "aws_secret_access_key"@);
    lemma_values_of_push(two, pairs[2], "aws_session_token"@);
    assert(two.push(pairs[2]) =~= pairs);
    assert(values_of(pairs, "aws_access_key_id"@) =~= seq![entry.aws_access_key_id]);
    assert(values_of(pairs, "aws_secret_access_key"@) =~= seq![entry.aws_secret_access_key]);
    assert(values_of(pairs, "aws_session_token"@) =~= seq![entry.aws_session_token]);
}

/// The values of a key after one more assignment.
proof fn lemma_values_of_push(pairs: Seq<(Seq<char>, Seq<char>)>, pair: (Seq<char>, Seq<char>), key: Seq<char>)
    ensures
        values_of(pairs.push(pair), key) == if pair.0 == key {
            values_of(pairs, key).push(pair.1)
        } else {
            values_of(pairs, key)
        },
{
    assert(pairs.push(pair).drop_last() =~= pairs);
}

/// The sections of a store with distinct profiles give its entries back, in
/// their order.
proof fn lemma_entries_of_store(pairs: Seq<(Seq<char>, EntryView)>)
    requires
        distinct_names(pairs),
    ensures
        entries_of(store_sections(pairs)) == Ok::<Seq<(Seq<char>, EntryView)>, LoadError>(pairs),
    decreases pairs.len(),
{
    if pairs.len() == 0 {
        assert(store_sections(pairs) =~= Seq::<SectionView>::empty());
        assert(pairs =~= Seq::empty());
    } else {
        let front = pairs.drop_last();
        let (profile, entry) = pairs.last();
        assert(distinct_names(front)) by {
            assert forall|i: int, j: int|
                0 <= i < front.len() && 0 <= j < front.len() && #[trigger] front[i].0 == #[trigger] front[j].0
                implies i == j by {
                assert(pairs[i].0 == pairs[j].0);
            }
        }
        lemma_entries_of_store(front);
        lemma_entry_of_pairs(entry);
        assert(store_sections(pairs).drop_last() =~= store_sections(front));
        assert(!has_name(front, profile)) by {
            if has_name(front, profile) {
                let i = place_of(front, profile);
                assert(pairs[i].0 == pairs[pairs.len() - 1].0);
            }
        }
        assert(bind(front, profile, entry) =~= pairs);
    }
}

/// Reading back the lines that a store writes gives the same profiles with
/// the same entries, in the same order.
pub proof fn lemma_items_round_trip(pairs: Seq<(Seq<char>, EntryView)>)
    requires
        distinct_names(pairs),
    ensures
        store_of_items(store_items(pairs)) == Ok::<Seq<(Seq<char>, EntryView)>, LoadError>(pairs),
{
    lemma_sections_of_store(pairs);
    lemma_entries_of_store(pairs);
}

/// Merging credentials for a profile changes no other profile: each other
/// profile is in the store after the merge exactly if it was before, with
/// the entry it had, and every entry that was there keeps its place.
pub proof fn lemma_merge_keeps_others(
    pairs: Seq<(Seq<char>, EntryView)>,
    profile: Seq<char>,
    credentials: CredentialsView,
)
    requires
        distinct_names(pairs),
    ensures
        distinct_names(merged(pairs, profile, credentials)),
        forall|other: Seq<char>|
            other != profile ==> (#[trigger] map_of(merged(pairs, profile, credentials)).contains_key(other)
                <==> map_of(pairs).contains_key(other)),
        forall|other: Seq<char>|
            other != profile && map_of(pairs).contains_key(other) ==> #[trigger] map_of(
                merged(pairs, profile, credentials),
            )[other] == map_of(pairs)[other],
        forall|i: int|
            0 <= i < pairs.len() && pairs[i].0 != profile ==> #[trigger] merged(pairs, profile, credentials)[i]
                == pairs[i],
{
    crate::table::lemma_bind(pairs, profile, overwrite(base_entry(pairs, profile), credentials));
    if has_name(pairs, profile) {
        lemma_place_of(pairs, place_of(pairs, profile));
    }
}

/// After a merge the profile has an entry, and its key, secret and token are
/// those of the credentials. A profile that had an entry keeps its place; a
/// profile that had none is added at the end, and nothing of the
/// placeholder is left in its entry.
pub proof fn lemma_merge_sets_entry(
    pairs: Seq<(Seq<char>, EntryView)>,
    profile: Seq<char>,
    credentials: CredentialsView,
)
    requires
        distinct_names(pairs),
    ensures
        map_of(merged(pairs, profile, credentials)).contains_key(profile),
        map_of(merged(pairs, profile, credentials))[profile] == (EntryView {
            aws_access_key_id: credentials.access_key_id,
            aws_secret_access_key: credentials.secret_access_key,
            aws_session_token: credentials.session_token,
        }),
        has_name(pairs, profile) ==> merged(pairs, profile, credentials).len() == pairs.len(),
        !has_name(pairs, profile) ==> merged(pairs, profile, credentials) == pairs.push(
            (profile, overwrite(placeholder(), credentials)),
        ),
{
    crate::table::lemma_bind(pairs, profile, overwrite(base_entry(pairs, profile), credentials));
}

/// Reading back the lines of a store into which credentials were merged
/// gives that store.
pub proof fn lemma_merged_round_trip(
    pairs: Seq<(Seq<char>, EntryView)>,
    profile: Seq<char>,
    credentials: CredentialsView,
)
    requires
        distinct_names(pairs),
    ensures
        store_of_items(store_items(merged(pairs, profile, credentials))) == Ok::<
            Seq<(Seq<char>, EntryView)>,
            LoadError,
        >(merged(pairs, profile, credentials)),
{
    lemma_merge_keeps_others(pairs, profile, credentials);
    lemma_items_round_trip(merged(pairs, profile, credentials));
}

} // verus!
