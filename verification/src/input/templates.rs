//! Command templates with `{param}` placeholders.

use vstd::prelude::*;

use crate::config::manager::{
    config_views, param_views, TemplateConfig, TemplateConfigView, TemplateParam, TemplateParamView,
};
use crate::pattern::{opt_str_views, regex_capture_group_one, regex_group_one};
use crate::text::{char_to_string, lemma_push_contains, replace_all, replace_str, str_views};

verus! {

/// Parameter names, in order.
pub open spec fn param_names(ps: Seq<TemplateParamView>) -> Seq<Seq<char>> {
    ps.map_values(|p: TemplateParamView| p.name)
}

/// The parameters with every repeated name dropped, first occurrences kept
/// in order.
pub open spec fn dedup_params(ps: Seq<TemplateParamView>) -> Seq<TemplateParamView>
    decreases ps.len(),
{
    if ps.len() == 0 {
        ps
    } else if param_names(ps.drop_last()).contains(ps.last().name) {
        dedup_params(ps.drop_last())
    } else {
        dedup_params(ps.drop_last()).push(ps.last())
    }
}

/// The names with every repeat dropped, first occurrences kept in order.
/// The present values of `gs`, in order.
pub open spec fn present(gs: Seq<Option<Seq<char>>>) -> Seq<Seq<char>>
    decreases gs.len(),
{
    if gs.len() == 0 {
        Seq::empty()
    } else {
        match gs.last() {
            Some(g) => present(gs.drop_last()).push(g),
            None => present(gs.drop_last()),
        }
    }
}

pub open spec fn dedup_names(ns: Seq<Seq<char>>) -> Seq<Seq<char>>
    decreases ns.len(),
{
    if ns.len() == 0 {
        ns
    } else if ns.drop_last().contains(ns.last()) {
        dedup_names(ns.drop_last())
    } else {
        dedup_names(ns.drop_last()).push(ns.last())
    }
}

/// The placeholder text for parameter `name`: `{name}`.
pub open spec fn placeholder(name: Seq<char>) -> Seq<char> {
    seq!['{'] + name + seq!['}']
}

/// `command` with the placeholders of the given names replaced by their
/// values, one pair after the other.
pub open spec fn expand_all(command: Seq<char>, values: Seq<(Seq<char>, Seq<char>)>) -> Seq<char>
    decreases values.len(),
{
    if values.len() == 0 {
        command
    } else {
        replace_all(
            expand_all(command, values.drop_last()),
            placeholder(values.last().0),
            values.last().1,
        )
    }
}

/// The pattern of a placeholder: a brace, one or more word characters
/// (captured), a brace.
pub open spec fn placeholder_pattern() -> Seq<char> {
    "\\{(\\w+)\\}"@
}

/// Replacing a pattern that does not occur leaves the text as it is.
pub proof fn law_replace_absent_is_identity(s: Seq<char>, pat: Seq<char>, rep: Seq<char>)
    requires
        pat.len() > 0,
        !crate::text::seq_contains(s, pat),
    ensures
        replace_all(s, pat, rep) == s,
    decreases s.len(),
{
    if s.len() >= pat.len() {
        if s.take(pat.len() as int) == pat {
            assert(crate::text::occurs_at(s, pat, 0)) by {
                assert(s.subrange(0, pat.len() as int) =~= s.take(pat.len() as int));
            }
        }
        assert(!crate::text::seq_contains(s.skip(1), pat)) by {
            if crate::text::seq_contains(s.skip(1), pat) {
                let i = choose|i: int| crate::text::occurs_at(s.skip(1), pat, i);
                assert(s.subrange(i + 1, i + 1 + pat.len()) =~= s.skip(1).subrange(i, i + pat.len()));
                assert(crate::text::occurs_at(s, pat, i + 1));
            }
        }
        law_replace_absent_is_identity(s.skip(1), pat, rep);
        assert(seq![s[0]] + s.skip(1) =~= s);
    }
}

/// Expanding with values whose placeholders do not occur in the command
/// leaves the command as it is: unmatched values change nothing, and
/// placeholders without a value stay.
pub proof fn law_expand_unmatched_is_identity(command: Seq<char>, values: Seq<(Seq<char>, Seq<char>)>)
    requires
        forall|i: int| 0 <= i < values.len() ==> !crate::text::seq_contains(command, placeholder(#[trigger] values[i].0)),
    ensures
        expand_all(command, values) == command,
    decreases values.len(),
{
    if values.len() > 0 {
        law_expand_unmatched_is_identity(command, values.drop_last());
        assert(!crate::text::seq_contains(command, placeholder(values[values.len() - 1].0)));
        law_replace_absent_is_identity(command, placeholder(values.last().0), values.last().1);
    }
}

/// After deduplication every parameter name occurs once, and exactly the
/// names of the configuration remain.
pub proof fn law_dedup_params_unique(ps: Seq<TemplateParamView>)
    ensures
        param_names(dedup_params(ps)).no_duplicates(),
        forall|n: Seq<char>| param_names(dedup_params(ps)).contains(n) <==> param_names(ps).contains(n),
    decreases ps.len(),
{
    if ps.len() > 0 {
        let init = ps.drop_last();
        law_dedup_params_unique(init);
        assert(param_names(ps) =~= param_names(init).push(ps.last().name));
        assert forall|n: Seq<char>| param_names(dedup_params(ps)).contains(n) <==> param_names(ps).contains(n) by {
            lemma_push_contains(param_names(init), ps.last().name, n);
            if !param_names(init).contains(ps.last().name) {
                assert(param_names(dedup_params(ps)) =~= param_names(dedup_params(init)).push(ps.last().name));
                lemma_push_contains(param_names(dedup_params(init)), ps.last().name, n);
            }
        }
        if !param_names(init).contains(ps.last().name) {
            let d = param_names(dedup_params(init));
            assert(param_names(dedup_params(ps)) =~= d.push(ps.last().name));
            assert forall|i: int, j: int| 0 <= i < j < d.push(ps.last().name).len() implies d.push(ps.last().name)[i] != d.push(ps.last().name)[j] by {
                if j == d.len() {
                    assert(d[i] == d.push(ps.last().name)[i]);
                    if d[i] == ps.last().name {
                        assert(d.contains(ps.last().name));
                    }
                }
            }
        }
    }
}

/// A parsed command template.
pub struct Template {
    pub label: String,
    /// Raw command string with `{param}` placeholders.
    command: String,
    /// Parameters, each name once.
    pub params: Vec<TemplateParam>,
}

impl Template {
    pub closed spec fn command_of(&self) -> Seq<char> {
        self.command@
    }

    pub closed spec fn label_of(&self) -> Seq<char> {
        self.label@
    }

    pub closed spec fn params_of(&self) -> Seq<TemplateParam> {
        self.params@
    }

    /// The label.
    pub fn label(&self) -> (l: &str)
        ensures
            l@ == self.label_of(),
    {
        self.label.as_str()
    }

    /// The parameters, each name once.
    pub fn params(&self) -> (ps: &[TemplateParam])
        ensures
            ps@ == self.params_of(),
    {
        self.params.as_slice()
    }

    /// The raw command string.
    pub fn command(&self) -> (c: &str)
        ensures
            c@ == self.command_of(),
    {
        self.command.as_str()
    }

    /// Build a template from its configuration, dropping parameters whose
    /// name repeats an earlier one.
    pub fn from_config(cfg: TemplateConfig) -> (t: Self)
        ensures
            t.label_of() == cfg.label@,
            t.command_of() == cfg.command@,
            param_views(t.params_of()) == dedup_params(param_views(cfg.params@)),
    {
        let TemplateConfig { label, command, params } = cfg;
        let ghost raw = params@;
        let ghost ps = param_views(params@);
        let total = params.len();
        let mut rest = params;
        let mut kept: Vec<TemplateParam> = Vec::new();
        let mut i: usize = 0;
        while rest.len() > 0
            invariant
                rest@ == raw.skip(i as int),
                ps == param_views(raw),
                i <= ps.len(),
                total == ps.len(),
                param_views(kept@) == dedup_params(ps.take(i as int)),
                forall|n: Seq<char>|
                    param_names(param_views(kept@)).contains(n) <==> param_names(ps.take(i as int)).contains(n),
            decreases rest@.len(),
        {
            let p = rest.remove(0);
            proof {
                assert(p == raw[i as int]);
                assert(ps.take(i + 1).drop_last() =~= ps.take(i as int));
                assert(ps.take(i + 1).last() == p@);
                assert(rest@ =~= raw.skip(i + 1));
            }
            let dup = has_param_named(&kept, &p.name);
            let ghost before = param_views(kept@);
            let ghost pv = p@;
            proof {
                assert(param_names(ps.take(i + 1)) =~= param_names(ps.take(i as int)).push(p.name@));
            }
            if !dup {
                kept.push(p);
                proof {
                    assert(param_views(kept@) =~= before.push(pv));
                    assert(param_names(param_views(kept@)) =~= param_names(before).push(pv.name));
                }
            }
            proof {
                assert forall|n: Seq<char>|
                    param_names(param_views(kept@)).contains(n) <==> param_names(ps.take(i + 1)).contains(n) by {
                    lemma_push_contains(param_names(ps.take(i as int)), pv.name, n);
                    lemma_push_contains(param_names(before), pv.name, n);
                }
            }
            i = i + 1;
        }
        proof {
            assert(ps.take(ps.len() as int) =~= ps);
        }
        Template { label, command, params: kept }
    }

    /// The command with each `{name}` replaced by its value, pair after
    /// pair. Placeholders without a value are left as they are.
    pub fn expand(&self, values: &[(String, String)]) -> (r: String)
        ensures
            r@ == expand_all(self.command_of(), values@.map_values(|p: (String, String)| (p.0@, p.1@))),
    {
        let ghost vs = values@.map_values(|p: (String, String)| (p.0@, p.1@));
        let mut result = String::from_str(self.command.as_str());
        let mut i: usize = 0;
        while i < values.len()
            invariant
                i <= values@.len(),
                vs == values@.map_values(|p: (String, String)| (p.0@, p.1@)),
                result@ == expand_all(self.command_of(), vs.take(i as int)),
            decreases values@.len() - i,
        {
            let (name, value) = &values[i];
            let mut pat = char_to_string('{');
            pat.append(name.as_str());
            let close = char_to_string('}');
            pat.append(close.as_str());
            proof {
                assert(vs.take(i + 1).drop_last() =~= vs.take(i as int));
                assert(pat@ =~= placeholder(name@));
            }
            result = replace_str(result.as_str(), pat.as_str(), value.as_str());
            i = i + 1;
        }
        proof {
            assert(vs.take(values@.len() as int) =~= vs);
        }
        result
    }

    /// The names of the `{name}` placeholders (word characters between
    /// braces) in `command`, each once, in order of first appearance.
    pub fn extract_params(command: &str) -> (names: Vec<String>)
        ensures
            match regex_capture_group_result(command@) {
                Some(found) => str_views(names@) == dedup_names(present(found)),
                None => names@.len() == 0,
            },
    {
        match regex_capture_group_one("\\{(\\w+)\\}", command) {
            Some(found) => dedup_strings(present_groups(found)),
            None => Vec::new(),
        }
    }
}

/// What the placeholder pattern's group one yields on `command`, if the
/// pattern compiles.
pub open spec fn regex_capture_group_result(command: Seq<char>) -> Option<Seq<Option<Seq<char>>>> {
    if crate::pattern::regex_compiles(placeholder_pattern()) {
        Some(regex_group_one(placeholder_pattern(), command))
    } else {
        None
    }
}

/// The groups of `gs` that took part, in order.
fn present_groups(gs: Vec<Option<String>>) -> (r: Vec<String>)
    ensures
        str_views(r@) == present(opt_str_views(gs@)),
{
    let ghost vs = opt_str_views(gs@);
    let mut r: Vec<String> = Vec::new();
    let mut i: usize = 0;
    while i < gs.len()
        invariant
            i <= gs@.len(),
            vs == opt_str_views(gs@),
            str_views(r@) == present(vs.take(i as int)),
        decreases gs@.len() - i,
    {
        proof {
            assert(vs.take(i + 1).drop_last() =~= vs.take(i as int));
        }
        match &gs[i] {
            Some(g) => {
                let ghost before = r@;
                r.push(g.clone());
                proof {
                    assert(str_views(r@) =~= str_views(before).push(g@));
                }
            },
            None => {},
        }
        i = i + 1;
    }
    proof {
        assert(vs.take(gs@.len() as int) =~= vs);
    }
    r
}

/// Whether some parameter is named `name`.
fn has_param_named(ps: &Vec<TemplateParam>, name: &String) -> (b: bool)
    ensures
        b == param_names(param_views(ps@)).contains(name@),
{
    let mut i: usize = 0;
    while i < ps.len()
        invariant
            i <= ps@.len(),
            forall|j: int| 0 <= j < i ==> ps@[j].name@ != name@,
        decreases ps@.len() - i,
    {
        if ps[i].name == *name {
            proof {
                assert(param_names(param_views(ps@))[i as int] == name@);
            }
            return true;
        }
        i = i + 1;
    }
    proof {
        if param_names(param_views(ps@)).contains(name@) {
            let j = choose|j: int| 0 <= j < param_names(param_views(ps@)).len() && #[trigger] param_names(param_views(ps@))[j] == name@;
            assert(ps@[j].name@ == name@);
        }
    }
    false
}

/// `names` with repeats dropped, first occurrences kept in order.
fn dedup_strings(names: Vec<String>) -> (r: Vec<String>)
    ensures
        str_views(r@) == dedup_names(str_views(names@)),
{
    let ghost ns = str_views(names@);
    let mut kept: Vec<String> = Vec::new();
    let mut i: usize = 0;
    while i < names.len()
        invariant
            ns == str_views(names@),
            i <= names@.len(),
            str_views(kept@) == dedup_names(ns.take(i as int)),
            forall|n: Seq<char>| str_views(kept@).contains(n) <==> ns.take(i as int).contains(n),
        decreases names@.len() - i,
    {
        let n = &names[i];
        proof {
            assert(ns.take(i + 1).drop_last() =~= ns.take(i as int));
            assert(ns.take(i + 1).last() == n@);
        }
        let mut seen = false;
        let mut j: usize = 0;
        while j < kept.len()
            invariant
                j <= kept@.len(),
                seen == exists|k: int| 0 <= k < j && kept@[k]@ == n@,
            decreases kept@.len() - j,
        {
            if kept[j] == *n {
                seen = true;
            }
            j = j + 1;
        }
        proof {
            if seen {
                let k = choose|k: int| 0 <= k < j && kept@[k]@ == n@;
                assert(str_views(kept@)[k] == n@);
            }
            if str_views(kept@).contains(n@) {
                let k = choose|k: int| 0 <= k < str_views(kept@).len() && #[trigger] str_views(kept@)[k] == n@;
                assert(kept@[k]@ == n@);
            }
        }
        let ghost before = str_views(kept@);
        if !seen {
            kept.push(String::from_str(n.as_str()));
            proof {
                assert(str_views(kept@) =~= before.push(n@));
            }
        }
        proof {
            assert(ns.take(i + 1) =~= ns.take(i as int).push(n@));
            assert forall|m: Seq<char>| str_views(kept@).contains(m) <==> ns.take(i + 1).contains(m) by {
                lemma_push_contains(ns.take(i as int), n@, m);
                lemma_push_contains(before, n@, m);
            }
        }
        i = i + 1;
    }
    proof {
        assert(ns.take(names@.len() as int) =~= ns);
    }
    kept
}

/// Manager for command templates.
pub struct TemplateManager {
    templates: Vec<Template>,
}

/// The templates built from `configs`, in order.
pub open spec fn built_from(ts: Seq<Template>, configs: Seq<TemplateConfigView>) -> bool {
    &&& ts.len() == configs.len()
    &&& forall|i: int|
        0 <= i < ts.len() ==> {
            &&& (#[trigger] ts[i]).label_of() == configs[i].label
            &&& ts[i].command_of() == configs[i].command
            &&& param_views(ts[i].params_of()) == dedup_params(configs[i].params)
        }
}

fn build_templates(configs: Vec<TemplateConfig>) -> (ts: Vec<Template>)
    ensures
        built_from(ts@, config_views(configs@)),
{
    let ghost raw = configs@;
    let ghost cs = config_views(configs@);
    let total = configs.len();
    let mut rest = configs;
    let mut ts: Vec<Template> = Vec::new();
    let mut i: usize = 0;
    while rest.len() > 0
        invariant
            rest@ == raw.skip(i as int),
            cs == config_views(raw),
            i <= cs.len(),
            total == cs.len(),
            built_from(ts@, cs.take(i as int)),
        decreases rest@.len(),
    {
        let c = rest.remove(0);
        proof {
            assert(c == raw[i as int]);
            assert(rest@ =~= raw.skip(i + 1));
        }
        let t = Template::from_config(c);
        ts.push(t);
        i = i + 1;
        proof {
            assert forall|j: int| 0 <= j < ts@.len() implies {
                &&& (#[trigger] ts@[j]).label_of() == cs.take(i as int)[j].label
                &&& ts@[j].command_of() == cs.take(i as int)[j].command
                &&& param_views(ts@[j].params_of()) == dedup_params(cs.take(i as int)[j].params)
            } by {
                if j < ts@.len() - 1 {
                    assert(cs.take(i - 1)[j] == cs.take(i as int)[j]);
                }
            }
        }
    }
    proof {
        assert(cs.take(cs.len() as int) =~= cs);
    }
    ts
}

impl TemplateManager {
    pub closed spec fn templates_of(&self) -> Seq<Template> {
        self.templates@
    }

    pub fn new(configs: Vec<TemplateConfig>) -> (m: Self)
        ensures
            built_from(m.templates_of(), config_views(configs@)),
    {
        TemplateManager { templates: build_templates(configs) }
    }

    pub fn templates(&self) -> (r: &[Template])
        ensures
            r@ == self.templates_of(),
    {
        self.templates.as_slice()
    }

    /// The first template with the given label.
    pub fn by_label(&self, label: &str) -> (r: Option<&Template>)
        ensures
            r matches Some(t) ==> exists|i: int|
                0 <= i < self.templates_of().len() && self.templates_of()[i] == *t && t.label_of()
                    == label@ && forall|j: int|
                    0 <= j < i ==> (#[trigger] self.templates_of()[j]).label_of() != label@,
            r is None ==> forall|i: int|
                0 <= i < self.templates_of().len() ==> (#[trigger] self.templates_of()[i]).label_of()
                    != label@,
    {
        let key = String::from_str(label);
        let mut i: usize = 0;
        while i < self.templates.len()
            invariant
                key@ == label@,
                i <= self.templates@.len(),
                forall|j: int| 0 <= j < i ==> (#[trigger] self.templates@[j]).label@ != label@,
            decreases self.templates@.len() - i,
        {
            if self.templates[i].label == key {
                proof {
                    assert(0 <= i < self.templates_of().len() && self.templates_of()[i as int]
                        == self.templates@[i as int]);
                }
                return Some(&self.templates[i]);
            }
            i = i + 1;
        }
        None
    }

    /// Replace all templates.
    pub fn update(&mut self, configs: Vec<TemplateConfig>)
        ensures
            built_from(final(self).templates_of(), config_views(configs@)),
    {
        self.templates = build_templates(configs);
    }
}

} // verus!
