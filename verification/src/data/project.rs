//! The project: every loaded card, layout, color, style set, sheet type and
//! image path, with the resolution rules that prefer project definitions
//! over builtins.
use vstd::prelude::*;

use crate::config::sheet::Sheet;
use crate::data::card::Card;
use crate::data::globals::builtin_color;
use crate::data::globals::builtin_style;
use crate::data::globals::color_named as builtin_color_named;
use crate::data::globals::style_named as builtin_style_named;
use crate::model::color::Color;
use crate::model::elements::Element;
use crate::model::geometry::Geometry;
use crate::model::styles::TextStyle;
use crate::model::styles::TextStyleView;
use crate::strings::str_eq;

verus! {

/// The registry map a name/value list stands for; a later entry with the
/// same name shadows an earlier one.
pub open spec fn assoc_map<V>(s: Seq<(String, V)>) -> Map<Seq<char>, V>
    decreases s.len(),
{
    if s.len() == 0 {
        Map::empty()
    } else {
        assoc_map(s.drop_last()).insert(s.last().0@, s.last().1)
    }
}

proof fn lemma_assoc_found<V>(s: Seq<(String, V)>, j: int, k: Seq<char>)
    requires
        0 <= j < s.len(),
        s[j].0@ == k,
        forall|l: int| j < l < s.len() ==> (#[trigger] s[l]).0@ != k,
    ensures
        assoc_map(s).contains_key(k),
        assoc_map(s)[k] == s[j].1,
    decreases s.len(),
{
    if j == s.len() - 1 {
    } else {
        lemma_assoc_found(s.drop_last(), j, k);
    }
}

proof fn lemma_assoc_absent<V>(s: Seq<(String, V)>, k: Seq<char>)
    requires
        forall|l: int| 0 <= l < s.len() ==> (#[trigger] s[l]).0@ != k,
    ensures
        !assoc_map(s).contains_key(k),
    decreases s.len(),
{
    if s.len() > 0 {
        lemma_assoc_absent(s.drop_last(), k);
    }
}

/// Looks a name up in a registry list, under the shadowing rule.
fn assoc_get<'a, V>(v: &'a Vec<(String, V)>, name: &str) -> (r: Option<&'a V>)
    ensures
        match r {
            Some(x) => assoc_map(v@).contains_key(name@) && *x == assoc_map(v@)[name@],
            None => !assoc_map(v@).contains_key(name@),
        },
{
    let mut i = v.len();
    while i > 0
        invariant
            i <= v@.len(),
            forall|l: int| i <= l < v@.len() ==> (#[trigger] v@[l]).0@ != name@,
        decreases i,
    {
        i = i - 1;
        if str_eq(v[i].0.as_str(), name) {
            proof {
                lemma_assoc_found(v@, i as int, name@);
            }
            return Some(&v[i].1);
        }
    }
    proof {
        lemma_assoc_absent(v@, name@);
    }
    None
}

/// The card registry map, keyed by identifier.
pub open spec fn cards_map(s: Seq<Card>) -> Map<Seq<char>, Card>
    decreases s.len(),
{
    if s.len() == 0 {
        Map::empty()
    } else {
        cards_map(s.drop_last()).insert(s.last().id@, s.last())
    }
}

proof fn lemma_cards_found(s: Seq<Card>, j: int, k: Seq<char>)
    requires
        0 <= j < s.len(),
        s[j].id@ == k,
        forall|l: int| j < l < s.len() ==> (#[trigger] s[l]).id@ != k,
    ensures
        cards_map(s).contains_key(k),
        cards_map(s)[k] == s[j],
    decreases s.len(),
{
    if j == s.len() - 1 {
    } else {
        lemma_cards_found(s.drop_last(), j, k);
    }
}

proof fn lemma_cards_absent(s: Seq<Card>, k: Seq<char>)
    requires
        forall|l: int| 0 <= l < s.len() ==> (#[trigger] s[l]).id@ != k,
    ensures
        !cards_map(s).contains_key(k),
    decreases s.len(),
{
    if s.len() > 0 {
        lemma_cards_absent(s.drop_last(), k);
    }
}

/// A compiled layout: geometry, optional base style layers, and the root
/// elements.
#[derive(PartialEq, Eq, Debug)]
pub struct Layout {
    pub geometry: Geometry,
    pub base: Option<BaseStyles>,
    pub elements: Vec<Element>,
}

/// The optional base style blocks of a layout.
#[derive(PartialEq, Eq, Debug)]
pub struct BaseStyles {
    pub path: Option<Path>,
    pub text: Option<Text>,
}

/// The layout-level base path styles.
#[derive(PartialEq, Eq, Debug)]
pub struct Path {
    pub styles: Vec<crate::model::styles::PathStyle>,
}

/// The layout-level base text styles.
#[derive(PartialEq, Eq, Debug)]
pub struct Text {
    pub styles: Vec<TextStyle>,
}

/// Document metadata for produced sheet documents.
#[derive(PartialEq, Eq, Debug)]
pub struct PdfMetadata {
    pub title: Option<String>,
    pub author: Option<String>,
    pub subject: Option<String>,
    pub keywords: Option<String>,
}

impl Default for PdfMetadata {
    fn default() -> (r: Self)
        ensures
            r.title is None && r.author is None && r.subject is None && r.keywords is None,
    {
        PdfMetadata { title: None, author: None, subject: None, keywords: None }
    }
}

#[derive(PartialEq, Eq, Debug)]
pub enum ProjectConfigurationError {
    NoSuchCard(String),
    NoLayoutFound(String),
    InvalidColorName(String),
    NotADirectory(String),
    Other(String),
}

/// What a color name resolves to: the project's own definition when there
/// is one, the builtin palette otherwise.
pub open spec fn color_resolution(colors: Seq<(String, Color)>, name: Seq<char>) -> Option<Color> {
    if assoc_map(colors).contains_key(name) {
        Some(assoc_map(colors)[name])
    } else {
        builtin_color(name)
    }
}

/// Color resolution precedence: a project-defined named color always
/// shadows a builtin of the same name — for every name, and in particular
/// for every name the builtin palette also defines.
pub proof fn lemma_project_color_shadows_builtin(colors: Seq<(String, Color)>, name: Seq<char>)
    requires
        assoc_map(colors).contains_key(name),
    ensures
        color_resolution(colors, name) == Some(assoc_map(colors)[name]),
{
}

/// Everything a loaded project holds. Registries are name/value lists under
/// the shadowing rule of `assoc_map`: a later registration of the same name
/// wins.
pub struct Project {
    pub base_dir: String,
    pub cards: Vec<Card>,
    pub layouts: Vec<(String, Layout)>,
    pub colors: Vec<(String, Color)>,
    pub styles: Vec<(String, Vec<TextStyle>)>,
    pub sheet_layouts: Vec<(String, Sheet)>,
    pub images: Vec<(String, String)>,
    pub pdf_metadata: PdfMetadata,
}

impl Project {
    /// An empty project.
    pub fn new() -> (r: Project)
        ensures
            r.cards@.len() == 0,
            r.layouts@.len() == 0,
            r.colors@.len() == 0,
            r.styles@.len() == 0,
            r.sheet_layouts@.len() == 0,
            r.images@.len() == 0,
            r.base_dir@ == Seq::<char>::empty(),
            r.pdf_metadata.title is None && r.pdf_metadata.author is None
                && r.pdf_metadata.subject is None && r.pdf_metadata.keywords is None,
    {
        Project {
            base_dir: String::new(),
            cards: Vec::new(),
            layouts: Vec::new(),
            colors: Vec::new(),
            styles: Vec::new(),
            sheet_layouts: Vec::new(),
            images: Vec::new(),
            pdf_metadata: PdfMetadata::default(),
        }
    }

    /// The card with the given identifier, or an error naming it.
    pub fn card_by_id(&self, id: &str) -> (r: Result<&Card, ProjectConfigurationError>)
        ensures
            cards_map(self.cards@).contains_key(id@) ==> (r matches Ok(c) && *c == cards_map(
                self.cards@,
            )[id@]),
            !cards_map(self.cards@).contains_key(id@) ==> (r matches Err(
                ProjectConfigurationError::NoSuchCard(n),
            ) && n@ == id@),
    {
        let mut i = self.cards.len();
        while i > 0
            invariant
                i <= self.cards@.len(),
                forall|l: int| i <= l < self.cards@.len() ==> (#[trigger] self.cards@[l]).id@ != id@,
            decreases i,
        {
            i = i - 1;
            if str_eq(self.cards[i].id.as_str(), id) {
                proof {
                    lemma_cards_found(self.cards@, i as int, id@);
                }
                return Ok(&self.cards[i]);
            }
        }
        proof {
            lemma_cards_absent(self.cards@, id@);
        }
        Err(ProjectConfigurationError::NoSuchCard(String::from_str(id)))
    }

    /// Every loaded card, in load order; a later card shadows an earlier
    /// one with the same identifier for lookups.
    pub fn all_cards(&self) -> (r: &Vec<Card>)
        ensures
            r == &self.cards,
    {
        &self.cards
    }

    /// Registers a card.
    pub fn add_card(&mut self, card: Card)
        ensures
            final(self).cards@ == old(self).cards@.push(card),
            final(self).layouts == old(self).layouts,
            final(self).colors == old(self).colors,
            final(self).styles == old(self).styles,
            final(self).sheet_layouts == old(self).sheet_layouts,
            final(self).images == old(self).images,
            final(self).pdf_metadata == old(self).pdf_metadata,
            final(self).base_dir == old(self).base_dir,
    {
        self.cards.push(card);
    }

    /// The layout registered under `name`.
    pub fn layout_named(&self, name: &str) -> (r: Option<&Layout>)
        ensures
            match r {
                Some(l) => assoc_map(self.layouts@).contains_key(name@) && *l == assoc_map(
                    self.layouts@,
                )[name@],
                None => !assoc_map(self.layouts@).contains_key(name@),
            },
    {
        assoc_get(&self.layouts, name)
    }

    /// Registers a layout under a name, shadowing any earlier registration.
    pub fn register_layout(&mut self, name: &str, layout: Layout)
        ensures
            final(self).layouts@.len() == old(self).layouts@.len() + 1,
            final(self).layouts@.last().0@ == name@ && final(self).layouts@.last().1 == layout,
            assoc_map(final(self).layouts@) == assoc_map(old(self).layouts@).insert(name@, layout),
            final(self).cards == old(self).cards,
            final(self).colors == old(self).colors,
            final(self).styles == old(self).styles,
            final(self).sheet_layouts == old(self).sheet_layouts,
            final(self).images == old(self).images,
            final(self).pdf_metadata == old(self).pdf_metadata,
            final(self).base_dir == old(self).base_dir,
    {
        self.layouts.push((String::from_str(name), layout));
        proof {
            assert(final(self).layouts@.drop_last() =~= old(self).layouts@);
        }
    }

    /// The layout a card renders with: the one its `layout` field names, or
    /// the one registered as `default`; a card whose layout cannot be found
    /// is an error naming the card.
    pub fn layout_for_card(&self, card: &Card) -> (r: Result<&Layout, ProjectConfigurationError>)
        ensures
            ({
                let wanted = match card.layout_name_spec() {
                    Some(n) => n,
                    None => "default"@,
                };
                match r {
                    Ok(l) => assoc_map(self.layouts@).contains_key(wanted) && *l == assoc_map(
                        self.layouts@,
                    )[wanted],
                    Err(e) => !assoc_map(self.layouts@).contains_key(wanted) && (e matches
                        ProjectConfigurationError::NoLayoutFound(n) && n@ == card.id@),
                }
            }),
    {
        let found = match card.layout_name() {
            Some(n) => self.layout_named(n.as_str()),
            None => self.layout_named("default"),
        };
        match found {
            Some(l) => Ok(l),
            None => Err(ProjectConfigurationError::NoLayoutFound(card.id.clone())),
        }
    }

    /// Resolves a color name: project definitions first, then the builtin
    /// palette; an unknown name is an error naming it.
    pub fn color_named(&self, name: &str) -> (r: Result<Color, ProjectConfigurationError>)
        ensures
            match color_resolution(self.colors@, name@) {
                Some(c) => r == Ok::<_, ProjectConfigurationError>(c),
                None => r matches Err(ProjectConfigurationError::InvalidColorName(n)) && n@
                    == name@,
            },
    {
        match assoc_get(&self.colors, name) {
            Some(c) => Ok(*c),
            None => {
                match builtin_color_named(name) {
                    Some(c) => Ok(c),
                    None => Err(
                        ProjectConfigurationError::InvalidColorName(String::from_str(name)),
                    ),
                }
            },
        }
    }

    /// Registers a project color definition.
    pub fn add_color(&mut self, name: String, color: Color)
        ensures
            final(self).colors@ == old(self).colors@.push((name, color)),
            final(self).cards == old(self).cards,
            final(self).layouts == old(self).layouts,
            final(self).styles == old(self).styles,
            final(self).sheet_layouts == old(self).sheet_layouts,
            final(self).images == old(self).images,
            final(self).pdf_metadata == old(self).pdf_metadata,
            final(self).base_dir == old(self).base_dir,
    {
        self.colors.push((name, color));
    }

    /// The named style set a style tag refers to: the project's registry
    /// first, then the builtin sets.
    pub fn style_set_for(&self, name: &str) -> (r: Option<Vec<TextStyle>>)
        ensures
            match r {
                Some(v) => {
                    if assoc_map(self.styles@).contains_key(name@) {
                        v@.map_values(|t: TextStyle| t@) == assoc_map(self.styles@)[
                            name@
                        ]@.map_values(|t: TextStyle| t@)
                    } else {
                        builtin_style(name@) == Some(v@.map_values(|t: TextStyle| t@))
                    }
                },
                None => !assoc_map(self.styles@).contains_key(name@) && builtin_style(
                    name@,
                ) is None,
            },
    {
        match assoc_get(&self.styles, name) {
            Some(v) => Some(crate::model::styles::clone_text_styles(v)),
            None => builtin_style_named(name),
        }
    }

    /// Registers a named style set.
    pub fn add_style_set(&mut self, name: String, styles: Vec<TextStyle>)
        ensures
            final(self).styles@ == old(self).styles@.push((name, styles)),
            final(self).cards == old(self).cards,
            final(self).layouts == old(self).layouts,
            final(self).colors == old(self).colors,
            final(self).sheet_layouts == old(self).sheet_layouts,
            final(self).images == old(self).images,
            final(self).pdf_metadata == old(self).pdf_metadata,
            final(self).base_dir == old(self).base_dir,
    {
        self.styles.push((name, styles));
    }

    /// The compiled sheet registered under `name`.
    pub fn sheet_type_named(&self, name: &str) -> (r: Option<&Sheet>)
        ensures
            match r {
                Some(s) => assoc_map(self.sheet_layouts@).contains_key(name@) && *s == assoc_map(
                    self.sheet_layouts@,
                )[name@],
                None => !assoc_map(self.sheet_layouts@).contains_key(name@),
            },
    {
        assoc_get(&self.sheet_layouts, name)
    }

    /// Registers a compiled sheet under a name.
    pub fn add_sheet_type(&mut self, name: String, sheet: Sheet)
        ensures
            final(self).sheet_layouts@ == old(self).sheet_layouts@.push((name, sheet)),
            final(self).cards == old(self).cards,
            final(self).layouts == old(self).layouts,
            final(self).colors == old(self).colors,
            final(self).styles == old(self).styles,
            final(self).images == old(self).images,
            final(self).pdf_metadata == old(self).pdf_metadata,
            final(self).base_dir == old(self).base_dir,
    {
        self.sheet_layouts.push((name, sheet));
    }

    /// The registered file path of a named image asset.
    pub fn full_image_path(&self, image_name: &str) -> (r: Option<&String>)
        ensures
            match r {
                Some(p) => assoc_map(self.images@).contains_key(image_name@) && *p == assoc_map(
                    self.images@,
                )[image_name@],
                None => !assoc_map(self.images@).contains_key(image_name@),
            },
    {
        assoc_get(&self.images, image_name)
    }

    /// Registers an image asset's file path under its name.
    pub fn add_image(&mut self, name: String, path: String)
        ensures
            final(self).images@ == old(self).images@.push((name, path)),
            final(self).cards == old(self).cards,
            final(self).layouts == old(self).layouts,
            final(self).colors == old(self).colors,
            final(self).styles == old(self).styles,
            final(self).sheet_layouts == old(self).sheet_layouts,
            final(self).pdf_metadata == old(self).pdf_metadata,
            final(self).base_dir == old(self).base_dir,
    {
        self.images.push((name, path));
    }
}

impl Card {
    /// The layout name a card asks for, as `layout_name` returns it.
    pub open spec fn layout_name_spec(&self) -> Option<Seq<char>> {
        let m = crate::templates::bindings_map(self.fields@);
        if m.contains_key("layout"@) && m["layout"@].len() > 0 {
            Some(m["layout"@])
        } else {
            None
        }
    }
}

} // verus!
