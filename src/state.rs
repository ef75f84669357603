use crate::fxmap::{fx_get, fx_insert, fx_len};
use crate::parser::{
    FieldSpecifier, OptionsTemplate, OptionsTemplateModel, Template, TemplateModel,
};
use rustc_hash::FxHashMap;
use vstd::prelude::*;
use vstd::set_lib::{lemma_int_range, lemma_len_subset, lemma_map_size_bound, set_int_range};

verus! {

/// The registry of learned templates and options templates, each kind keyed
/// by its template id.
#[derive(Debug)]
pub struct State {
    templates: FxHashMap<u16, Template>,
    options_templates: FxHashMap<u16, OptionsTemplate>,
}

/// What a registry holds: the templates and the options templates by id.
pub struct StateModel {
    pub templates: Map<u16, TemplateModel>,
    pub options_templates: Map<u16, OptionsTemplateModel>,
}

impl StateModel {
    /// The empty registry.
    pub open spec fn empty() -> StateModel {
        StateModel { templates: Map::empty(), options_templates: Map::empty() }
    }

    /// The fields of the template that a data set with set id `id` is read
    /// with: the template under `id`, else the options template under `id`.
    pub open spec fn fields_for(self, id: u16) -> Option<Seq<FieldSpecifier>> {
        if self.templates.contains_key(id) {
            Some(self.templates[id].fields)
        } else if self.options_templates.contains_key(id) {
            Some(self.options_templates[id].fields)
        } else {
            None
        }
    }

    /// The registry after storing the templates `ts` in order, each under
    /// its template id.
    pub open spec fn with_templates(self, ts: Seq<TemplateModel>) -> StateModel
        decreases ts.len(),
    {
        if ts.len() == 0 {
            self
        } else {
            let s = self.with_templates(ts.drop_last());
            StateModel {
                templates: s.templates.insert(ts.last().header.template_id, ts.last()),
                ..s
            }
        }
    }

    /// The registry after storing the options templates `ts` in order, each
    /// under its id.
    pub open spec fn with_options_templates(self, ts: Seq<OptionsTemplateModel>) -> StateModel
        decreases ts.len(),
    {
        if ts.len() == 0 {
            self
        } else {
            let s = self.with_options_templates(ts.drop_last());
            StateModel {
                options_templates: s.options_templates.insert(ts.last().header.id, ts.last()),
                ..s
            }
        }
    }
}

impl View for State {
    type V = StateModel;

    closed spec fn view(&self) -> StateModel {
        StateModel {
            templates: Map::new(
                |k: u16| self.templates@.contains_key(k),
                |k: u16| self.templates@[k]@,
            ),
            options_templates: Map::new(
                |k: u16| self.options_templates@.contains_key(k),
                |k: u16| self.options_templates@[k]@,
            ),
        }
    }
}

/// A map keyed by `u16` has at most 65536 keys.
proof fn lemma_u16_keys_bound<V>(m: Map<u16, V>)
    ensures
        m.dom().finite(),
        m.dom().len() <= 0x1_0000,
{
    let all = set_int_range(0, 0x1_0000);
    lemma_int_range(0, 0x1_0000);
    let g = |i: int| i as u16;
    let full = all.map(g);
    lemma_map_size_bound(all, full, g);
    assert forall|k: u16| m.dom().contains(k) implies full.contains(k) by {
        assert(all.contains(k as int));
        assert(g(k as int) == k);
    }
    lemma_len_subset(m.dom(), full);
}

impl State {
    /// An empty registry.
    pub fn new() -> (r: State)
        ensures
            r@ == StateModel::empty(),
    {
        let r = State { templates: FxHashMap::default(), options_templates: FxHashMap::default() };
        assert(r@.templates =~= Map::empty());
        assert(r@.options_templates =~= Map::empty());
        r
    }

    /// Stores `template` under `id`, replacing what was there.
    pub fn add_template(&mut self, id: u16, template: Template)
        ensures
            final(self)@ == (StateModel {
                templates: old(self)@.templates.insert(id, template@),
                ..old(self)@
            }),
    {
        let ghost t = template@;
        fx_insert(&mut self.templates, id, template);
        assert(self@.templates =~= old(self)@.templates.insert(id, t));
        assert(self@.options_templates =~= old(self)@.options_templates);
    }

    /// Stores `options_template` under `id`, replacing what was there.
    pub fn add_options_template(&mut self, id: u16, options_template: OptionsTemplate)
        ensures
            final(self)@ == (StateModel {
                options_templates: old(self)@.options_templates.insert(id, options_template@),
                ..old(self)@
            }),
    {
        let ghost t = options_template@;
        fx_insert(&mut self.options_templates, id, options_template);
        assert(self@.options_templates =~= old(self)@.options_templates.insert(id, t));
        assert(self@.templates =~= old(self)@.templates);
    }

    /// Stores each of `templates` in order under its template id.
    pub fn add_templates(&mut self, templates: Vec<Template>)
        ensures
            final(self)@ == old(self)@.with_templates(templates@.map_values(|t: Template| t@)),
    {
        let ghost all = templates@.map_values(|t: Template| t@);
        let mut rest = templates;
        let ghost n = all.len();
        let mut i: usize = 0;
        let total = rest.len();
        assert(all.subrange(0, 0) =~= Seq::<TemplateModel>::empty());
        assert(rest@.map_values(|t: Template| t@) =~= all.subrange(0, n as int));
        while rest.len() > 0
            invariant
                i + rest@.len() == n,
                n == all.len(),
                n == total,
                rest@.map_values(|t: Template| t@) == all.subrange(i as int, n as int),
                self@ == old(self)@.with_templates(all.subrange(0, i as int)),
            decreases rest@.len(),
        {
            let ghost before = rest@;
            let t = rest.remove(0);
            assert(before.map_values(|t: Template| t@)[0] == all.subrange(i as int, n as int)[0]);
            let ghost now = rest@.map_values(|t: Template| t@);
            let ghost prev = before.map_values(|t: Template| t@);
            assert forall|j: int| 0 <= j < now.len() implies #[trigger] now[j] == all[i + 1 + j] by {
                assert(prev[j + 1] == all.subrange(i as int, n as int)[j + 1]);
            }
            assert(rest@.map_values(|t: Template| t@) =~= all.subrange(i + 1, n as int));
            let id = t.header.template_id;
            self.add_template(id, t);
            assert(all.subrange(0, i + 1).drop_last() =~= all.subrange(0, i as int));
            i = i + 1;
        }
        assert(all.subrange(0, i as int) =~= all);
    }

    /// Stores each of `options_templates` in order under its id.
    pub fn add_options_templates(&mut self, options_templates: Vec<OptionsTemplate>)
        ensures
            final(self)@ == old(self)@.with_options_templates(
                options_templates@.map_values(|t: OptionsTemplate| t@),
            ),
    {
        let ghost all = options_templates@.map_values(|t: OptionsTemplate| t@);
        let mut rest = options_templates;
        let ghost n = all.len();
        let mut i: usize = 0;
        let total = rest.len();
        assert(all.subrange(0, 0) =~= Seq::<OptionsTemplateModel>::empty());
        assert(rest@.map_values(|t: OptionsTemplate| t@) =~= all.subrange(0, n as int));
        while rest.len() > 0
            invariant
                i + rest@.len() == n,
                n == all.len(),
                n == total,
                rest@.map_values(|t: OptionsTemplate| t@) == all.subrange(i as int, n as int),
                self@ == old(self)@.with_options_templates(all.subrange(0, i as int)),
            decreases rest@.len(),
        {
            let ghost before = rest@;
            let t = rest.remove(0);
            assert(before.map_values(|t: OptionsTemplate| t@)[0] == all.subrange(i as int, n as int)[0]);
            let ghost now = rest@.map_values(|t: OptionsTemplate| t@);
            let ghost prev = before.map_values(|t: OptionsTemplate| t@);
            assert forall|j: int| 0 <= j < now.len() implies #[trigger] now[j] == all[i + 1 + j] by {
                assert(prev[j + 1] == all.subrange(i as int, n as int)[j + 1]);
            }
            assert(rest@.map_values(|t: OptionsTemplate| t@) =~= all.subrange(i + 1, n as int));
            let id = t.header.id;
            self.add_options_template(id, t);
            assert(all.subrange(0, i + 1).drop_last() =~= all.subrange(0, i as int));
            i = i + 1;
        }
        assert(all.subrange(0, i as int) =~= all);
    }

    /// The template stored under `id`, if any.
    pub fn get_template(&self, id: &u16) -> (r: Option<&Template>)
        ensures
            match r {
                Some(t) => self@.templates.contains_key(*id) && t@ == self@.templates[*id],
                None => !self@.templates.contains_key(*id),
            },
    {
        fx_get(&self.templates, id)
    }

    /// The options template stored under `id`, if any.
    pub fn get_options_template(&self, id: &u16) -> (r: Option<&OptionsTemplate>)
        ensures
            match r {
                Some(t) => self@.options_templates.contains_key(*id) && t@
                    == self@.options_templates[*id],
                None => !self@.options_templates.contains_key(*id),
            },
    {
        fx_get(&self.options_templates, id)
    }

    /// All stored templates, by id.
    pub fn get_templates(&self) -> (r: &FxHashMap<u16, Template>)
        ensures
            r@.dom() == self@.templates.dom(),
            forall|k: u16| #[trigger] r@.contains_key(k) ==> r@[k]@ == self@.templates[k],
    {
        assert(self.templates@.dom() =~= self@.templates.dom());
        &self.templates
    }

    /// All stored options templates, by id.
    pub fn get_options_templates(&self) -> (r: &FxHashMap<u16, OptionsTemplate>)
        ensures
            r@.dom() == self@.options_templates.dom(),
            forall|k: u16| #[trigger] r@.contains_key(k) ==> r@[k]@ == self@.options_templates[k],
    {
        assert(self.options_templates@.dom() =~= self@.options_templates.dom());
        &self.options_templates
    }

    /// The number of stored templates.
    pub fn templates_len(&self) -> (r: usize)
        ensures
            r == self@.templates.len(),
            r <= 0x1_0000,
    {
        let r = fx_len(&self.templates);
        assert(self.templates@.dom() =~= self@.templates.dom());
        proof {
            lemma_u16_keys_bound(self.templates@);
        }
        r
    }

    /// The number of stored options templates.
    pub fn options_templates_len(&self) -> (r: usize)
        ensures
            r == self@.options_templates.len(),
            r <= 0x1_0000,
    {
        let r = fx_len(&self.options_templates);
        assert(self.options_templates@.dom() =~= self@.options_templates.dom());
        proof {
            lemma_u16_keys_bound(self.options_templates@);
        }
        r
    }

    /// The number of stored templates of both kinds.
    pub fn len(&self) -> (r: usize)
        ensures
            r == self@.templates.len() + self@.options_templates.len(),
    {
        self.templates_len() + self.options_templates_len()
    }

    /// Whether the registry holds no template of either kind.
    pub fn is_empty(&self) -> (r: bool)
        ensures
            r == (self@.templates.len() + self@.options_templates.len() == 0),
    {
        self.len() == 0
    }
}

} // verus!
