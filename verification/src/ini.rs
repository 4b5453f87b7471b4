//! The lines of an INI file, read and written through `serde_ini`.

use vstd::prelude::*;
use vstd::string::StringExecFns;

verus! {

/// One line of an INI file.
#[derive(Debug, Clone, PartialEq, Eq)]
pub enum IniItem {
    Empty,
    Section { name: String },
    Value { key: String, value: String },
    Comment { text: String },
}

/// One line of an INI file, with the texts of its strings.
pub enum ItemView {
    Empty,
    Section { name: Seq<char> },
    Value { key: Seq<char>, value: Seq<char> },
    Comment { text: Seq<char> },
}

impl View for IniItem {
    type V = ItemView;

    open spec fn view(&self) -> ItemView {
        match self {
            IniItem::Empty => ItemView::Empty,
            IniItem::Section { name } => ItemView::Section { name: name@ },
            IniItem::Value { key, value } => ItemView::Value { key: key@, value: value@ },
            IniItem::Comment { text } => ItemView::Comment { text: text@ },
        }
    }
}

/// The views of a list of items.
pub open spec fn item_views(items: Seq<IniItem>) -> Seq<ItemView> {
    items.map_values(|item: IniItem| item@)
}

/// The end of a written line.
pub open spec fn line_end() -> Seq<char> {
    seq!['\r', '\n']
}

/// The line that stands for an item in a written file.
pub open spec fn item_text(item: ItemView) -> Seq<char> {
    match item {
        ItemView::Empty => line_end(),
        ItemView::Section { name } => seq!['['] + name + seq![']'] + line_end(),
        ItemView::Value { key, value } => key + seq!['='] + value + line_end(),
        ItemView::Comment { text } => seq![';'] + text + line_end(),
    }
}

/// The lines of the items, one after the other.
pub open spec fn items_text(items: Seq<ItemView>) -> Seq<char>
    decreases items.len(),
{
    if items.len() == 0 {
        Seq::empty()
    } else {
        items_text(items.drop_last()) + item_text(items.last())
    }
}

/// The items that `serde_ini` reads from a text, line by line; `None` where
/// a line is neither a section, a comment, an assignment nor empty.
pub uninterp spec fn ini_items(text: Seq<char>) -> Option<Seq<ItemView>>;

/// Runs `serde_ini::Parser::from_str` over the whole text and collects what
/// it yields. The result is the parser's own: every item in order, or `None`
/// at the first line it rejects.
#[verifier::external_body]
pub(crate) fn parse_items(text: &str) -> (items: Option<Vec<IniItem>>)
    ensures
        match items {
            Some(list) => ini_items(text@) == Some(item_views(list@)),
            None => ini_items(text@) is None,
        },
{
    let parsed: Result<Vec<serde_ini::Item>, _> = serde_ini::Parser::from_str(text).collect();
    let items = parsed.ok()?.into_iter().map(|item| match item {
        serde_ini::Item::Empty => IniItem::Empty,
        serde_ini::Item::Section { name } => IniItem::Section { name },
        serde_ini::Item::Value { key, value } => IniItem::Value { key, value },
        serde_ini::Item::Comment { text } => IniItem::Comment { text },
    });
    Some(items.collect())
}

/// Writes one item with `serde_ini::Writer::write` at the writer's default
/// line ending, which is a carriage return and a line feed. The writer puts a
/// section's name in square brackets, `=` between a key and its value and `;`
/// before a comment, and changes nothing in the strings it is given.
#[verifier::external_body]
fn write_item(item: &IniItem) -> (line: String)
    ensures
        line@ == item_text(item@),
{
    let outside = match item {
        IniItem::Empty => serde_ini::Item::Empty,
        IniItem::Section { name } => serde_ini::Item::Section { name: name.clone() },
        IniItem::Value { key, value } => serde_ini::Item::Value { key: key.clone(), value: value.clone() },
        IniItem::Comment { text } => serde_ini::Item::Comment { text: text.clone() },
    };
    let mut writer = serde_ini::Writer::new(Vec::new(), serde_ini::LineEnding::default());
    writer.write(&outside).expect("a vector takes every write");
    String::from_utf8(writer.into_inner()).expect("the lines of strings are UTF-8")
}

/// The text of a file that holds the items, one per line.
pub fn write_items(items: &Vec<IniItem>) -> (text: String)
    ensures
        text@ == items_text(item_views(items@)),
{
    let mut text = String::new();
    let mut i: usize = 0;
    while i < items.len()
        invariant
            i <= items.len(),
            text@ == items_text(item_views(items@).take(i as int)),
        decreases items.len() - i,
    {
        let line = write_item(&items[i]);
        proof {
            let views = item_views(items@);
            assert(views.take(i + 1).drop_last() =~= views.take(i as int));
            assert(views.take(i + 1).last() == items@[i as int]@);
        }
        text.append(line.as_str());
        i += 1;
    }
    assert(item_views(items@).take(items.len() as int) =~= item_views(items@));
    text
}

/// Why a file could not be read as sections of the expected fields.
#[derive(Debug, Clone, Copy, PartialEq, Eq, Structural)]
pub enum LoadError {
    /// A line is not a line of an INI file.
    Syntax,
    /// An assignment stands before the first section.
    OrphanValue,
    /// A section lacks a field.
    MissingField,
    /// A section assigns a field twice.
    DuplicateField,
}

/// The line that tells the operator why a file could not be read.
pub open spec fn load_message_of(error: LoadError) -> Seq<char> {
    match error {
        LoadError::Syntax => "a line is not a line of an INI file"@,
        LoadError::OrphanValue => "an assignment stands before the first section"@,
        LoadError::MissingField => "a section lacks a field"@,
        LoadError::DuplicateField => "a section assigns a field twice"@,
    }
}

impl LoadError {
    /// The line that tells the operator why a file could not be read.
    pub fn message(&self) -> (line: String)
        ensures
            line@ == load_message_of(*self),
    {
        match self {
            LoadError::Syntax => "a line is not a line of an INI file".to_owned(),
            LoadError::OrphanValue => "an assignment stands before the first section".to_owned(),
            LoadError::MissingField => "a section lacks a field".to_owned(),
            LoadError::DuplicateField => "a section assigns a field twice".to_owned(),
        }
    }
}

/// A section of an INI file: its name and its assignments in order.
#[derive(Debug, Clone, PartialEq, Eq)]
pub struct Section {
    pub name: String,
    pub pairs: Vec<(String, String)>,
}

/// A section with the texts of its strings.
pub struct SectionView {
    pub name: Seq<char>,
    pub pairs: Seq<(Seq<char>, Seq<char>)>,
}

impl View for Section {
    type V = SectionView;

    open spec fn view(&self) -> SectionView {
        SectionView { name: self.name@, pairs: self.pairs@.map_values(|p: (String, String)| (p.0@, p.1@)) }
    }
}

/// The views of a list of sections.
pub open spec fn section_views(sections: Seq<Section>) -> Seq<SectionView> {
    sections.map_values(|section: Section| section@)
}

/// The sections that a list of items forms. Comments and empty lines count
/// for nothing, a section line opens a section, and an assignment belongs to
/// the section opened last. `None` where an assignment has no section.
pub open spec fn sections_of(items: Seq<ItemView>) -> Option<Seq<SectionView>>
    decreases items.len(),
{
    if items.len() == 0 {
        Some(Seq::empty())
    } else {
        match sections_of(items.drop_last()) {
            None => None,
            Some(before) => match items.last() {
                ItemView::Empty => Some(before),
                ItemView::Comment { text } => Some(before),
                ItemView::Section { name } => Some(before.push(SectionView { name, pairs: Seq::empty() })),
                ItemView::Value { key, value } => if before.len() == 0 {
                    None
                } else {
                    Some(
                        before.update(
                            before.len() - 1,
                            SectionView { name: before.last().name, pairs: before.last().pairs.push((key, value)) },
                        ),
                    )
                },
            },
        }
    }
}

/// Groups the items of a file into its sections.
pub fn group(items: &Vec<IniItem>) -> (sections: Option<Vec<Section>>)
    ensures
        match sections {
            Some(list) => sections_of(item_views(items@)) == Some(section_views(list@)),
            None => sections_of(item_views(items@)) is None,
        },
{
    let ghost views = item_views(items@);
    let mut sections: Vec<Section> = Vec::new();
    let mut i: usize = 0;
    while i < items.len()
        invariant
            i <= items.len(),
            views == item_views(items@),
            sections_of(views.take(i as int)) == Some(section_views(sections@)),
        decreases items.len() - i,
    {
        proof {
            assert(views.take(i + 1).drop_last() =~= views.take(i as int));
            assert(views.take(i + 1).last() == items@[i as int]@);
        }
        let ghost before = section_views(sections@);
        match &items[i] {
            IniItem::Empty => {},
            IniItem::Comment { text } => {},
            IniItem::Section { name } => {
                sections.push(Section { name: name.clone(), pairs: Vec::new() });
                proof {
                    let opened = SectionView { name: name@, pairs: Seq::empty() };
                    assert(sections@.last()@.pairs =~= opened.pairs);
                    assert(section_views(sections@) =~= before.push(opened));
                }
            },
            IniItem::Value { key, value } => {
                match sections.pop() {
                    None => {
                        proof {
                            lemma_orphan(views, i as int + 1);
                        }
                        return None;
                    },
                    Some(last) => {
                        let ghost rest = sections@;
                        let Section { name, pairs } = last;
                        let mut pairs = pairs;
                        pairs.push((key.clone(), value.clone()));
                        sections.push(Section { name, pairs });
                        proof {
                            assert(before.len() == rest.len() + 1);
                            let grown = SectionView {
                                name: before.last().name,
                                pairs: before.last().pairs.push((key@, value@)),
                            };
                            assert(sections@.last()@.pairs =~= grown.pairs);
                            assert(section_views(sections@) =~= before.update(before.len() - 1, grown));
                        }
                    },
                }
            },
        }
        i += 1;
    }
    assert(views.take(items.len() as int) =~= views);
    Some(sections)
}

/// Once an assignment has no section, no longer list of items has sections.
proof fn lemma_orphan(items: Seq<ItemView>, k: int)
    requires
        0 <= k <= items.len(),
        sections_of(items.take(k)) is None,
    ensures
        sections_of(items) is None,
    decreases items.len() - k,
{
    if k < items.len() {
        assert(items.take(k + 1).drop_last() =~= items.take(k));
        lemma_orphan(items, k + 1);
    } else {
        assert(items.take(k) =~= items);
    }
}

/// The values that the assignments give to a key, in order.
pub open spec fn values_of(pairs: Seq<(Seq<char>, Seq<char>)>, key: Seq<char>) -> Seq<Seq<char>>
    decreases pairs.len(),
{
    if pairs.len() == 0 {
        Seq::empty()
    } else if pairs.last().0 == key {
        values_of(pairs.drop_last(), key).push(pairs.last().1)
    } else {
        values_of(pairs.drop_last(), key)
    }
}

/// The value of a field that must be assigned exactly once.
pub open spec fn field_of(pairs: Seq<(Seq<char>, Seq<char>)>, key: Seq<char>) -> Result<Seq<char>, LoadError> {
    let values = values_of(pairs, key);
    if values.len() == 0 {
        Err(LoadError::MissingField)
    } else if values.len() > 1 {
        Err(LoadError::DuplicateField)
    } else {
        Ok(values[0])
    }
}

impl Section {
    /// The value that the section assigns to a field. A field that is not
    /// assigned, or assigned more than once, is an error.
    pub fn field(&self, key: &str) -> (value: Result<String, LoadError>)
        ensures
            match value {
                Ok(text) => field_of(self@.pairs, key@) == Ok::<Seq<char>, LoadError>(text@),
                Err(error) => field_of(self@.pairs, key@) == Err::<Seq<char>, LoadError>(error),
            },
    {
        let ghost pairs = self@.pairs;
        let wanted: String = key.to_owned();
        let mut found: Option<String> = None;
        let mut i: usize = 0;
        while i < self.pairs.len()
            invariant
                i <= self.pairs.len(),
                wanted@ == key@,
                pairs == self@.pairs,
                values_of(pairs.take(i as int), key@).len() <= 1,
                match found {
                    Some(text) => values_of(pairs.take(i as int), key@) == seq![text@],
                    None => values_of(pairs.take(i as int), key@).len() == 0,
                },
            decreases self.pairs.len() - i,
        {
            proof {
                assert(pairs.take(i + 1).drop_last() =~= pairs.take(i as int));
                assert(pairs.take(i + 1).last() == (self.pairs@[i as int].0@, self.pairs@[i as int].1@));
            }
            if self.pairs[i].0 == wanted {
                if found.is_some() {
                    proof {
                        lemma_values_grow(pairs, key@, i as int + 1);
                    }
                    return Err(LoadError::DuplicateField);
                }
                found = Some(self.pairs[i].1.clone());
                assert(values_of(pairs.take(i + 1), key@) =~= seq![self.pairs@[i as int].1@]);
            }
            i += 1;
        }
        assert(pairs.take(self.pairs.len() as int) =~= pairs);
        match found {
            Some(text) => Ok(text),
            None => Err(LoadError::MissingField),
        }
    }
}

/// A longer list of assignments gives a key no fewer values.
proof fn lemma_values_grow(pairs: Seq<(Seq<char>, Seq<char>)>, key: Seq<char>, k: int)
    requires
        0 <= k <= pairs.len(),
    ensures
        values_of(pairs.take(k), key).len() <= values_of(pairs, key).len(),
    decreases pairs.len() - k,
{
    if k < pairs.len() {
        assert(pairs.take(k + 1).drop_last() =~= pairs.take(k));
        lemma_values_grow(pairs, key, k + 1);
    } else {
        assert(pairs.take(k) =~= pairs);
    }
}

/// The records that a list of sections gives, where `read` makes a record
/// of a section's assignments. Of two sections with one name the later one
/// gives the record. The first section that gives no record decides the
/// error.
pub open spec fn records_of<R>(
    sections: Seq<SectionView>,
    read: spec_fn(Seq<(Seq<char>, Seq<char>)>) -> Result<R, LoadError>,
) -> Result<Seq<(Seq<char>, R)>, LoadError>
    decreases sections.len(),
{
    if sections.len() == 0 {
        Ok(Seq::empty())
    } else {
        match records_of(sections.drop_last(), read) {
            Err(error) => Err(error),
            Ok(before) => match read(sections.last().pairs) {
                Err(error) => Err(error),
                Ok(record) => Ok(crate::table::bind(before, sections.last().name, record)),
            },
        }
    }
}

/// The records that the lines of a file give. An assignment before the
/// first section is an error.
pub open spec fn records_of_items<R>(
    items: Seq<ItemView>,
    read: spec_fn(Seq<(Seq<char>, Seq<char>)>) -> Result<R, LoadError>,
) -> Result<Seq<(Seq<char>, R)>, LoadError> {
    match sections_of(items) {
        None => Err(LoadError::OrphanValue),
        Some(sections) => records_of(sections, read),
    }
}

/// The records that the text of a file gives. A line that is no line of an
/// INI file is an error.
pub open spec fn records_of_text<R>(
    text: Seq<char>,
    read: spec_fn(Seq<(Seq<char>, Seq<char>)>) -> Result<R, LoadError>,
) -> Result<Seq<(Seq<char>, R)>, LoadError> {
    match ini_items(text) {
        None => Err(LoadError::Syntax),
        Some(items) => records_of_items(items, read),
    }
}

/// Once a section gives no record, no longer list of sections gives
/// records, and the error stays.
pub proof fn lemma_records_fail<R>(
    sections: Seq<SectionView>,
    read: spec_fn(Seq<(Seq<char>, Seq<char>)>) -> Result<R, LoadError>,
    k: int,
)
    requires
        0 <= k <= sections.len(),
        records_of(sections.take(k), read) is Err,
    ensures
        records_of(sections, read) == records_of(sections.take(k), read),
    decreases sections.len() - k,
{
    if k < sections.len() {
        assert(sections.take(k + 1).drop_last() =~= sections.take(k));
        lemma_records_fail(sections, read, k + 1);
    } else {
        assert(sections.take(k) =~= sections);
    }
}

} // verus!
