//! Raw property and component preservation types.
//!
//! `RawProperty` keeps a property the typed model does not interpret
//! (unknown `X-*` properties, vendor-prefixed ones, everything inside an
//! unrecognized component), with its value verbatim — escapes intact.
//! `source_index` is the 1-based input order inside the enclosing
//! component; the formatter emits unknown properties sorted by it.

use vstd::prelude::*;
use crate::text::copy_string;

verus! {

/// A property kept verbatim.
#[derive(Debug, Clone, PartialEq, Eq)]
pub struct RawProperty {
    /// Property name, normalized to upper case.
    pub name: String,
    /// `(KEY, value)` pairs in input order; keys upper case, values as
    /// written (surrounding `"` removed).
    pub params: Vec<(String, String)>,
    /// Raw value, escapes intact.
    pub value: String,
    /// 1-based input order within the enclosing component.
    pub source_index: u32,
}

/// Mathematical model of a `RawProperty`.
pub struct RawPropertyView {
    pub name: Seq<char>,
    pub params: Seq<(Seq<char>, Seq<char>)>,
    pub value: Seq<char>,
    pub source_index: u32,
}

impl View for RawProperty {
    type V = RawPropertyView;

    open spec fn view(&self) -> RawPropertyView {
        RawPropertyView {
            name: self.name@,
            params: self.params.deep_view(),
            value: self.value@,
            source_index: self.source_index,
        }
    }
}

/// A component (`BEGIN:NAME ... END:NAME`) the typed model does not
/// understand, preserved for round-trip output.
#[derive(Debug, PartialEq, Eq)]
pub struct RawComponent {
    /// Component name, upper case.
    pub name: String,
    /// All properties of the component.
    pub properties: Vec<RawProperty>,
    /// Nested components.
    pub sub_components: Vec<RawComponent>,
}

/// Mathematical model of a `RawComponent`.
pub struct RawComponentView {
    pub name: Seq<char>,
    pub properties: Seq<RawPropertyView>,
    pub sub_components: Seq<RawComponentView>,
}

/// Models of a sequence of properties.
pub open spec fn props_view(ps: Seq<RawProperty>) -> Seq<RawPropertyView> {
    ps.map_values(|p: RawProperty| p@)
}

/// Model of a component.
pub open spec fn component_view(c: RawComponent) -> RawComponentView
    decreases c, 1int,
{
    RawComponentView {
        name: c.name@,
        properties: props_view(c.properties@),
        sub_components: components_view(c.sub_components@),
    }
}

/// Models of a sequence of components.
pub open spec fn components_view(cs: Seq<RawComponent>) -> Seq<RawComponentView>
    decreases cs, 0int,
{
    if cs.len() == 0 {
        seq![]
    } else {
        seq![component_view(cs[0])] + components_view(cs.skip(1))
    }
}

impl View for RawComponent {
    type V = RawComponentView;

    open spec fn view(&self) -> RawComponentView {
        component_view(*self)
    }
}

/// A copy of a parameter list.
pub fn copy_params(ps: &Vec<(String, String)>) -> (r: Vec<(String, String)>)
    ensures
        r.deep_view() == ps.deep_view(),
{
    let mut out: Vec<(String, String)> = Vec::new();
    let mut i: usize = 0;
    while i < ps.len()
        invariant
            i <= ps.len(),
            out.deep_view() == ps.deep_view().take(i as int),
        decreases ps.len() - i,
    {
        let k = copy_string(&ps[i].0);
        let v = copy_string(&ps[i].1);
        let ghost before = out.deep_view();
        out.push((k, v));
        assert(out.deep_view() =~= before.push((ps[i as int].0@, ps[i as int].1@)));
        assert(ps.deep_view()[i as int] == (ps[i as int].0@, ps[i as int].1@));
        assert(out.deep_view() =~= ps.deep_view().take(i + 1));
        i = i + 1;
    }
    assert(ps.deep_view().take(i as int) =~= ps.deep_view());
    out
}

impl RawProperty {
    /// A copy of this property.
    pub fn copy(&self) -> (r: RawProperty)
        ensures
            r@ == self@,
    {
        RawProperty {
            name: copy_string(&self.name),
            params: copy_params(&self.params),
            value: copy_string(&self.value),
            source_index: self.source_index,
        }
    }
}

/// A copy of a property list.
pub fn copy_props(ps: &Vec<RawProperty>) -> (r: Vec<RawProperty>)
    ensures
        props_view(r@) == props_view(ps@),
{
    let mut out: Vec<RawProperty> = Vec::new();
    let mut i: usize = 0;
    while i < ps.len()
        invariant
            i <= ps.len(),
            props_view(out@) == props_view(ps@).take(i as int),
        decreases ps.len() - i,
    {
        let p = ps[i].copy();
        let ghost before = out@;
        out.push(p);
        assert(out@ =~= before.push(p));
        assert(props_view(out@) =~= props_view(before).push(p@));
        assert(props_view(out@) =~= props_view(ps@).take(i + 1));
        i = i + 1;
    }
    assert(props_view(ps@).take(i as int) =~= props_view(ps@));
    out
}

pub proof fn lemma_components_view_len(cs: Seq<RawComponent>)
    ensures
        components_view(cs).len() == cs.len(),
    decreases cs.len(),
{
    if cs.len() > 0 {
        lemma_components_view_len(cs.skip(1));
    }
}

pub proof fn lemma_components_view_index(cs: Seq<RawComponent>, i: int)
    requires
        0 <= i < cs.len(),
    ensures
        components_view(cs)[i] == component_view(cs[i]),
    decreases cs.len(),
{
    lemma_components_view_len(cs.skip(1));
    if i > 0 {
        lemma_components_view_index(cs.skip(1), i - 1);
        assert(cs.skip(1)[i - 1] == cs[i]);
    }
}

pub proof fn lemma_components_view_push(cs: Seq<RawComponent>, c: RawComponent)
    ensures
        components_view(cs.push(c)) == components_view(cs).push(component_view(c)),
    decreases cs.len(),
{
    if cs.len() == 0 {
        assert(cs.push(c).skip(1) =~= seq![]);
        assert(components_view(cs.push(c).skip(1)) == Seq::<RawComponentView>::empty());
        assert(components_view(cs.push(c)) =~= seq![component_view(c)]);
    } else {
        lemma_components_view_push(cs.skip(1), c);
        assert(cs.push(c).skip(1) =~= cs.skip(1).push(c));
        assert(cs.push(c)[0] == cs[0]);
        assert(components_view(cs.push(c)) =~= components_view(cs).push(component_view(c)));
    }
}

impl RawComponent {
    /// A copy of this component (recursively).
    pub fn copy(&self) -> (r: RawComponent)
        ensures
            r@ == self@,
        decreases self,
    {
        let mut subs: Vec<RawComponent> = Vec::new();
        let mut i: usize = 0;
        proof {
            lemma_components_view_len(self.sub_components@);
        }
        assert(components_view(subs@) =~= components_view(self.sub_components@).take(0));
        while i < self.sub_components.len()
            invariant
                i <= self.sub_components.len(),
                components_view(self.sub_components@).len() == self.sub_components@.len(),
                components_view(subs@) == components_view(self.sub_components@).take(i as int),
            decreases self.sub_components.len() - i,
        {
            assert(decreases_to!(*self => self.sub_components));
            let c = self.sub_components[i].copy();
            proof {
                lemma_components_view_push(subs@, c);
                lemma_components_view_index(self.sub_components@, i as int);
            }
            subs.push(c);
            assert(components_view(subs@) =~= components_view(self.sub_components@).take(i + 1));
            i = i + 1;
        }
        assert(components_view(self.sub_components@).take(i as int) =~= components_view(
            self.sub_components@,
        ));
        RawComponent {
            name: copy_string(&self.name),
            properties: copy_props(&self.properties),
            sub_components: subs,
        }
    }
}

/// A copy of a component list.
pub fn copy_components(cs: &Vec<RawComponent>) -> (r: Vec<RawComponent>)
    ensures
        components_view(r@) == components_view(cs@),
{
    let mut out: Vec<RawComponent> = Vec::new();
    let mut i: usize = 0;
    proof {
        lemma_components_view_len(cs@);
    }
    assert(components_view(out@) =~= components_view(cs@).take(0));
    while i < cs.len()
        invariant
            i <= cs.len(),
            components_view(cs@).len() == cs@.len(),
            components_view(out@) == components_view(cs@).take(i as int),
        decreases cs.len() - i,
    {
        let c = cs[i].copy();
        proof {
            lemma_components_view_push(out@, c);
            lemma_components_view_index(cs@, i as int);
        }
        out.push(c);
        assert(components_view(out@) =~= components_view(cs@).take(i + 1));
        i = i + 1;
    }
    assert(components_view(cs@).take(i as int) =~= components_view(cs@));
    out
}

} // verus!
