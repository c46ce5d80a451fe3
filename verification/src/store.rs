//! The parcel store: an immutable mapping from parcel name to an ordered
//! list of entries. Built once, then only read: lookup, enumeration, and
//! rendering for display. A failed lookup reports every defined name.

use vstd::prelude::*;

use crate::entry::{spec_display, Entry, SpecEntry};
use crate::text::{
    is_substring, join_with, lemma_join_contains_each, lemma_occurs_in_right, occurs_at,
    spec_join, str_eq,
};

verus! {

/// One named, ordered group of launch targets.
#[derive(Debug, Clone)]
pub struct Parcel {
    pub name: String,
    pub entries: Vec<Entry>,
}

impl View for Parcel {
    type V = (Seq<char>, Seq<SpecEntry>);

    open spec fn view(&self) -> (Seq<char>, Seq<SpecEntry>) {
        (self.name@, self.entries.deep_view())
    }
}

/// Every parcel, in the order the source defined them. No name is defined
/// twice, and the store is never changed after it is built.
#[derive(Debug, Clone)]
pub struct ParcelConfig {
    parcels: Vec<Parcel>,
}

impl View for ParcelConfig {
    type V = Seq<(Seq<char>, Seq<SpecEntry>)>;

    closed spec fn view(&self) -> Seq<(Seq<char>, Seq<SpecEntry>)> {
        Seq::new(self.parcels.len() as nat, |i: int| self.parcels[i]@)
    }
}

impl ParcelConfig {
    /// No parcel name is defined twice.
    pub open spec fn wf(&self) -> bool {
        forall|i: int, j: int| 0 <= i < j < self@.len() ==> self@[i].0 != self@[j].0
    }

    /// The parcel names, in definition order.
    pub open spec fn spec_names(&self) -> Seq<Seq<char>> {
        self@.map_values(|p: (Seq<char>, Seq<SpecEntry>)| p.0)
    }

    /// Whether some parcel bears this name.
    pub open spec fn spec_has(&self, name: Seq<char>) -> bool {
        exists|i: int| 0 <= i < self@.len() && self@[i].0 == name
    }

    /// The entries of the parcel bearing this name.
    pub open spec fn spec_entries_of(&self, name: Seq<char>) -> Seq<SpecEntry> {
        self@[choose|i: int| 0 <= i < self@.len() && self@[i].0 == name].1
    }

    /// An empty store.
    pub fn new() -> (c: ParcelConfig)
        ensures
            c.wf(),
            c@.len() == 0,
    {
        ParcelConfig { parcels: Vec::new() }
    }

    /// Whether no parcel is defined.
    pub fn is_empty(&self) -> (r: bool)
        ensures
            r == (self@.len() == 0),
    {
        self.parcels.len() == 0
    }

    /// Whether a parcel of this name is defined.
    pub fn has_parcel(&self, name: &str) -> (r: bool)
        ensures
            r == self.spec_has(name@),
    {
        let mut i: usize = 0;
        while i < self.parcels.len()
            invariant
                0 <= i <= self.parcels.len(),
                forall|k: int| 0 <= k < i ==> self@[k].0 != name@,
            decreases self.parcels.len() - i,
        {
            if str_eq(self.parcels[i].name.as_str(), name) {
                proof {
                    assert(self@[i as int].0 == name@);
                }
                return true;
            }
            i = i + 1;
        }
        false
    }

    /// Define one more parcel at the end of the store. A name already taken
    /// is refused, so that no name is ever defined twice.
    pub fn add_parcel(&mut self, name: String, entries: Vec<Entry>) -> (added: bool)
        requires
            old(self).wf(),
        ensures
            final(self).wf(),
            added == !old(self).spec_has(name@),
            added ==> final(self)@ == old(self)@.push((name@, entries.deep_view())),
            !added ==> final(self)@ == old(self)@,
    {
        if self.has_parcel(name.as_str()) {
            false
        } else {
            let ghost before = self@;
            let ghost n = name@;
            let ghost es = entries.deep_view();
            self.parcels.push(Parcel { name, entries });
            proof {
                assert(self@ =~= before.push((n, es)));
            }
            true
        }
    }

    /// The entries of the named parcel, when it is defined.
    pub fn lookup(&self, name: &str) -> (r: Option<&Vec<Entry>>)
        requires
            self.wf(),
        ensures
            match r {
                Option::Some(v) => self.spec_has(name@) && v.deep_view() == self.spec_entries_of(
                    name@,
                ),
                Option::None => !self.spec_has(name@),
            },
    {
        let mut i: usize = 0;
        while i < self.parcels.len()
            invariant
                0 <= i <= self.parcels.len(),
                self.wf(),
                forall|k: int| 0 <= k < i ==> self@[k].0 != name@,
            decreases self.parcels.len() - i,
        {
            if str_eq(self.parcels[i].name.as_str(), name) {
                proof {
                    assert(self@[i as int].0 == name@);
                    assert(self.spec_has(name@));
                    let w = choose|w: int| 0 <= w < self@.len() && self@[w].0 == name@;
                    assert(w == i);
                    assert(self.spec_entries_of(name@) == self@[i as int].1);
                }
                return Some(&self.parcels[i].entries);
            }
            i = i + 1;
        }
        None
    }

    /// Every parcel name, in definition order.
    pub fn names(&self) -> (r: Vec<String>)
        ensures
            r.deep_view() == self.spec_names(),
    {
        let mut out: Vec<String> = Vec::new();
        let mut i: usize = 0;
        while i < self.parcels.len()
            invariant
                0 <= i <= self.parcels.len(),
                out.deep_view() =~= self.spec_names().take(i as int),
            decreases self.parcels.len() - i,
        {
            let ghost old_deep = out.deep_view();
            out.push(self.parcels[i].name.clone());
            proof {
                assert(out.deep_view() =~= old_deep.push(self.parcels[i as int].name@));
                assert(self.spec_names()[i as int] == self@[i as int].0);
                assert(self.spec_names().take(i + 1) =~= self.spec_names().take(i as int).push(
                    self.spec_names()[i as int],
                ));
            }
            i = i + 1;
        }
        proof {
            assert(self.spec_names().take(self.parcels.len() as int) =~= self.spec_names());
        }
        out
    }
}

/// The defined parcel names joined for display, comma separated, in
/// definition order.
pub fn available_parcels(config: &ParcelConfig) -> (r: String)
    ensures
        r@ == spec_join(config.spec_names(), ", "@),
{
    let names = config.names();
    join_with(&names, ", ")
}

/// The message for a failed lookup: it names the parcel that was asked for
/// and every parcel that is defined.
pub open spec fn spec_not_found_message(name: Seq<char>, names: Seq<Seq<char>>) -> Seq<char> {
    "Parcel `"@ + name + "` not found. Available parcels: "@ + spec_join(names, ", "@)
}

/// The failed-lookup message for this store.
pub fn not_found_message(name: &str, config: &ParcelConfig) -> (r: String)
    ensures
        r@ == spec_not_found_message(name@, config.spec_names()),
{
    let mut out = "Parcel `".to_owned();
    out.append(name);
    out.append("` not found. Available parcels: ");
    let avail = available_parcels(config);
    out.append(avail.as_str());
    out
}

impl ParcelConfig {
    /// The named parcel's entries, or the failed-lookup message that lists
    /// every defined parcel.
    pub fn lookup_or_message(&self, name: &str) -> (r: Result<&Vec<Entry>, String>)
        requires
            self.wf(),
        ensures
            self.spec_has(name@) ==> (r matches Ok(v) && v.deep_view() == self.spec_entries_of(
                name@,
            )),
            !self.spec_has(name@) ==> (r matches Err(m) && m@ == spec_not_found_message(
                name@,
                self.spec_names(),
            )),
    {
        match self.lookup(name) {
            Some(v) => Ok(v),
            None => Err(not_found_message(name, self)),
        }
    }
}

/// The display lines for a list of entries: each line a dash, the entry's
/// display form, and a newline.
pub open spec fn spec_render_entries(l: Seq<SpecEntry>) -> Seq<char>
    decreases l.len(),
{
    if l.len() == 0 {
        Seq::empty()
    } else {
        (("- "@ + spec_display(l[0])) + "\n"@) + spec_render_entries(l.skip(1))
    }
}

proof fn lemma_render_entries_push(l: Seq<SpecEntry>, x: SpecEntry)
    ensures
        spec_render_entries(l.push(x)) == spec_render_entries(l) + (("- "@ + spec_display(x))
            + "\n"@),
    decreases l.len(),
{
    let line = ("- "@ + spec_display(x)) + "\n"@;
    if l.len() == 0 {
        assert(l.push(x)[0] == x);
        assert(l.push(x).skip(1) =~= Seq::<SpecEntry>::empty());
        assert(spec_render_entries(l.push(x)) == line + spec_render_entries(l.push(x).skip(1)));
        assert(spec_render_entries(l.push(x).skip(1)) == Seq::<char>::empty());
        assert(line + Seq::<char>::empty() =~= line);
        assert(Seq::<char>::empty() + line =~= line);
        assert(spec_render_entries(l.push(x)) == spec_render_entries(l) + line);
    } else {
        lemma_render_entries_push(l.skip(1), x);
        assert(l.push(x).skip(1) =~= l.skip(1).push(x));
        let head = ("- "@ + spec_display(l[0])) + "\n"@;
        assert(head + (spec_render_entries(l.skip(1)) + line) =~= (head + spec_render_entries(
            l.skip(1),
        )) + line);
    }
}

/// The display lines for one parcel's entries, ready to print.
pub fn render_entries(entries: &Vec<Entry>) -> (r: String)
    ensures
        r@ == spec_render_entries(entries.deep_view()),
{
    let ghost dv = entries.deep_view();
    let mut out = String::new();
    let mut i: usize = 0;
    proof {
        assert(dv.take(0) =~= Seq::<SpecEntry>::empty());
    }
    while i < entries.len()
        invariant
            0 <= i <= entries.len(),
            dv == entries.deep_view(),
            out@ == spec_render_entries(dv.take(i as int)),
        decreases entries.len() - i,
    {
        let ghost prev = out@;
        out.append("- ");
        let d = entries[i].display();
        out.append(d.as_str());
        out.append("\n");
        proof {
            lemma_render_entries_push(dv.take(i as int), dv[i as int]);
            assert(dv.take(i + 1) =~= dv.take(i as int).push(dv[i as int]));
            assert(((prev + "- "@) + spec_display(dv[i as int])) + "\n"@ =~= prev + (("- "@
                + spec_display(dv[i as int])) + "\n"@));
        }
        i = i + 1;
    }
    proof {
        assert(dv.take(entries.len() as int) =~= dv);
    }
    out
}

/// The display form of the whole store: each parcel's name with a colon,
/// then its entries as display lines, in definition order.
pub open spec fn spec_render_config(v: Seq<(Seq<char>, Seq<SpecEntry>)>) -> Seq<char>
    decreases v.len(),
{
    if v.len() == 0 {
        Seq::empty()
    } else {
        ((v[0].0 + ":\n"@) + spec_render_entries(v[0].1)) + spec_render_config(v.skip(1))
    }
}

proof fn lemma_render_config_push(v: Seq<(Seq<char>, Seq<SpecEntry>)>, p: (Seq<char>, Seq<SpecEntry>))
    ensures
        spec_render_config(v.push(p)) == spec_render_config(v) + ((p.0 + ":\n"@)
            + spec_render_entries(p.1)),
    decreases v.len(),
{
    let block = (p.0 + ":\n"@) + spec_render_entries(p.1);
    if v.len() == 0 {
        assert(v.push(p)[0] == p);
        assert(v.push(p).skip(1) =~= Seq::<(Seq<char>, Seq<SpecEntry>)>::empty());
        assert(spec_render_config(v.push(p)) == block + spec_render_config(v.push(p).skip(1)));
        assert(spec_render_config(v.push(p).skip(1)) == Seq::<char>::empty());
        assert(block + Seq::<char>::empty() =~= block);
        assert(Seq::<char>::empty() + block =~= block);
        assert(spec_render_config(v.push(p)) == spec_render_config(v) + block);
    } else {
        lemma_render_config_push(v.skip(1), p);
        assert(v.push(p).skip(1) =~= v.skip(1).push(p));
        let head = (v[0].0 + ":\n"@) + spec_render_entries(v[0].1);
        assert(head + (spec_render_config(v.skip(1)) + block) =~= (head + spec_render_config(
            v.skip(1),
        )) + block);
    }
}

impl ParcelConfig {
    /// The whole store rendered for display, ready to print.
    pub fn render(&self) -> (r: String)
        ensures
            r@ == spec_render_config(self@),
    {
        let mut out = String::new();
        let mut i: usize = 0;
        proof {
            assert(self@.take(0) =~= Seq::<(Seq<char>, Seq<SpecEntry>)>::empty());
        }
        while i < self.parcels.len()
            invariant
                0 <= i <= self.parcels.len(),
                out@ == spec_render_config(self@.take(i as int)),
            decreases self.parcels.len() - i,
        {
            let ghost prev = out@;
            out.append(self.parcels[i].name.as_str());
            out.append(":\n");
            let lines = render_entries(&self.parcels[i].entries);
            out.append(lines.as_str());
            proof {
                let p = self@[i as int];
                lemma_render_config_push(self@.take(i as int), p);
                assert(self@.take(i + 1) =~= self@.take(i as int).push(p));
                assert(((prev + p.0) + ":\n"@) + spec_render_entries(p.1) =~= prev + ((p.0
                    + ":\n"@) + spec_render_entries(p.1)));
            }
            i = i + 1;
        }
        proof {
            assert(self@.take(self.parcels.len() as int) =~= self@);
        }
        out
    }
}

/// The two candidate config file paths for a home-expanded base: its
/// `.yml` form and its `.yaml` form.
pub fn config_candidates(expanded_base: &str) -> (r: (String, String))
    ensures
        r.0@ == expanded_base@ + ".yml"@,
        r.1@ == expanded_base@ + ".yaml"@,
{
    let mut yml = expanded_base.to_owned();
    yml.append(".yml");
    let mut yaml = expanded_base.to_owned();
    yaml.append(".yaml");
    (yml, yaml)
}

/// The default config path: the `.yml` candidate when the caller found it
/// on disk, else the `.yaml` candidate.
pub fn pick_config_path(yml: String, yaml: String, yml_exists: bool) -> (r: String)
    ensures
        yml_exists ==> r@ == yml@,
        !yml_exists ==> r@ == yaml@,
{
    if yml_exists {
        yml
    } else {
        yaml
    }
}

/// Law: the failed-lookup message holds every defined parcel name whole,
/// never a bare "not found".
pub proof fn lemma_not_found_message_lists_all(name: Seq<char>, names: Seq<Seq<char>>)
    ensures
        forall|k: int|
            0 <= k < names.len() ==> is_substring(
                spec_not_found_message(name, names),
                names[k],
            ),
{
    lemma_join_contains_each(names, ", "@);
    let prefix = "Parcel `"@ + name + "` not found. Available parcels: "@;
    assert forall|k: int|
        0 <= k < names.len() implies is_substring(
        spec_not_found_message(name, names),
        names[k],
    ) by {
        let i = choose|i: int| #[trigger] occurs_at(spec_join(names, ", "@), names[k], i);
        lemma_occurs_in_right(prefix, spec_join(names, ", "@), names[k], i);
        assert(occurs_at(spec_not_found_message(name, names), names[k], prefix.len() + i));
    }
}

} // verus!
