//! The icon extension: an event's icon is the value of its first
//! `X-ICSCLI-ICON` property, kept among the event's unknown properties.

use vstd::prelude::*;
use crate::error::push_chars;
use crate::event::VEvent;
use crate::raw::{props_view, RawProperty, RawPropertyView};
use crate::text::{chars_of, str_eq, string_of};

verus! {

/// Wire-format property name of the icon extension.
pub const ICON_PROPERTY: &'static str = "X-ICSCLI-ICON";

/// The name of the icon property.
pub open spec fn icon_property() -> Seq<char> {
    "X-ICSCLI-ICON"@
}

/// The preset icons: name and description.
pub open spec fn preset_icons_spec() -> Seq<(Seq<char>, Seq<char>)> {
    seq![
        ("airplane"@, "出張・旅行"@),
        ("birthday"@, "誕生日"@),
        ("star"@, "お気に入り"@),
        ("heart"@, "記念日"@),
        ("gift"@, "プレゼント"@),
        ("vacation"@, "休暇"@),
        ("meeting"@, "会議"@),
        ("deadline"@, "締め切り"@),
        ("medical"@, "通院"@),
        ("school"@, "学校行事"@),
        ("sports"@, "スポーツ"@),
        ("music"@, "音楽・ライブ"@),
    ]
}

/// The preset icons: name and description.
pub fn preset_icons() -> (r: Vec<(&'static str, &'static str)>)
    ensures
        r@.map_values(|p: (&'static str, &'static str)| (p.0@, p.1@)) == preset_icons_spec(),
{
    let r = vec![
        ("airplane", "出張・旅行"),
        ("birthday", "誕生日"),
        ("star", "お気に入り"),
        ("heart", "記念日"),
        ("gift", "プレゼント"),
        ("vacation", "休暇"),
        ("meeting", "会議"),
        ("deadline", "締め切り"),
        ("medical", "通院"),
        ("school", "学校行事"),
        ("sports", "スポーツ"),
        ("music", "音楽・ライブ"),
    ];
    assert(r@.map_values(|p: (&'static str, &'static str)| (p.0@, p.1@)) =~= preset_icons_spec());
    r
}

/// `s` padded with spaces on the right to at least `w` characters
/// (`{:<w}`).
pub open spec fn pad_right(s: Seq<char>, w: int) -> Seq<char> {
    if s.len() < w {
        s + Seq::new((w - s.len()) as nat, |i: int| ' ')
    } else {
        s
    }
}

/// The preset list, one `name description` line per icon, the name
/// padded to 12 characters, lines joined with `\n`.
pub open spec fn icons_list_text(ps: Seq<(Seq<char>, Seq<char>)>) -> Seq<char>
    decreases ps.len(),
{
    if ps.len() == 0 {
        seq![]
    } else if ps.len() == 1 {
        pad_right(ps[0].0, 12) + " "@ + ps[0].1
    } else {
        icons_list_text(ps.drop_last()) + "\n"@ + pad_right(ps.last().0, 12) + " "@ + ps.last().1
    }
}

fn push_padded(out: &mut Vec<char>, s: &str, w: usize)
    ensures
        final(out)@ == old(out)@ + pad_right(s@, w as int),
{
    let v = chars_of(s);
    push_chars(out, &v);
    let ghost mid = out@;
    let mut k = v.len();
    while k < w
        invariant
            v.len() <= k <= w || (k == v.len() && k >= w),
            v@ == s@,
            out@ == mid + Seq::new((k - v.len()) as nat, |i: int| ' '),
        decreases w - k,
    {
        out.push(' ');
        assert(out@ =~= mid + Seq::new((k + 1 - v.len()) as nat, |i: int| ' '));
        k = k + 1;
    }
    if v.len() < w {
        assert(out@ =~= old(out)@ + pad_right(s@, w as int));
    } else {
        assert(out@ =~= old(out)@ + pad_right(s@, w as int));
    }
}

/// The preset icon list as printed by the `icons` subcommand.
pub fn format_icons_list() -> (r: String)
    ensures
        r@ == icons_list_text(preset_icons_spec()),
{
    let icons = preset_icons();
    let ghost ps = icons@.map_values(|p: (&'static str, &'static str)| (p.0@, p.1@));
    let mut out: Vec<char> = Vec::new();
    let mut i: usize = 0;
    while i < icons.len()
        invariant
            i <= icons.len(),
            ps == icons@.map_values(|p: (&'static str, &'static str)| (p.0@, p.1@)),
            out@ == icons_list_text(ps.take(i as int)),
        decreases icons.len() - i,
    {
        let ghost t = ps.take(i + 1);
        assert(t.drop_last() =~= ps.take(i as int));
        assert(t.last() == ps[i as int]);
        let (name, desc) = icons[i];
        if i > 0 {
            push_chars(&mut out, &chars_of("\n"));
        } else {
            assert(t[0] == ps[0]);
        }
        push_padded(&mut out, name, 12);
        push_chars(&mut out, &chars_of(" "));
        push_chars(&mut out, &chars_of(desc));
        i = i + 1;
    }
    assert(ps.take(i as int) =~= ps);
    string_of(&out)
}

/// Position of the first icon property among `ps`.
pub open spec fn icon_position(ps: Seq<RawPropertyView>) -> Option<int> {
    if exists|k: int| 0 <= k < ps.len() && ps[k].name == icon_property() {
        Some(choose|k: int| 0 <= k < ps.len() && ps[k].name == icon_property()
            && forall|j: int| 0 <= j < k ==> ps[j].name != icon_property())
    } else {
        None
    }
}

/// The icon of an event: the value of its first icon property.
pub open spec fn icon_of(ps: Seq<RawPropertyView>) -> Option<Seq<char>> {
    match icon_position(ps) {
        Some(k) => Some(ps[k].value),
        None => None,
    }
}

/// The largest `source_index` among `ps` (0 when empty).
pub open spec fn max_source_index(ps: Seq<RawPropertyView>) -> nat
    decreases ps.len(),
{
    if ps.len() == 0 {
        0
    } else {
        let m = max_source_index(ps.drop_last());
        if ps.last().source_index > m {
            ps.last().source_index as nat
        } else {
            m
        }
    }
}

/// The unknown properties after setting the icon to `icon`: the first
/// icon property gets the new value, or, without one, a new icon property
/// is appended numbered one past the largest `source_index`.
pub open spec fn with_icon(ps: Seq<RawPropertyView>, icon: Seq<char>) -> Seq<RawPropertyView> {
    match icon_position(ps) {
        Some(k) => ps.update(k, RawPropertyView { value: icon, ..ps[k] }),
        None => ps.push(
            RawPropertyView {
                name: icon_property(),
                params: seq![],
                value: icon,
                source_index: (max_source_index(ps) + 1) as u32,
            },
        ),
    }
}

proof fn lemma_icon_position(ps: Seq<RawPropertyView>, k: int)
    requires
        0 <= k < ps.len(),
        ps[k].name == icon_property(),
        forall|j: int| 0 <= j < k ==> ps[j].name != icon_property(),
    ensures
        icon_position(ps) == Some(k),
{
    let c = icon_position(ps)->0;
    if c < k {
        assert(ps[c].name != icon_property());
    } else if c > k {
        assert(ps[k].name != icon_property());
    }
}

/// Position of the first icon property of `event`.
fn find_icon(event: &VEvent) -> (r: Option<usize>)
    ensures
        r matches Some(k) ==> k < event.unknown.len() && icon_position(event@.unknown) == Some(k as int),
        r is None <==> icon_position(event@.unknown) is None,
{
    let ghost ps = event@.unknown;
    let mut i: usize = 0;
    while i < event.unknown.len()
        invariant
            i <= event.unknown.len(),
            ps == event@.unknown,
            ps.len() == event.unknown.len(),
            forall|j: int| 0 <= j < i ==> ps[j].name != icon_property(),
        decreases event.unknown.len() - i,
    {
        assert(ps[i as int] == event.unknown[i as int]@);
        if str_eq(event.unknown[i].name.as_str(), ICON_PROPERTY) {
            proof {
                lemma_icon_position(ps, i as int);
            }
            return Some(i);
        }
        i = i + 1;
    }
    None
}

/// Read the icon associated with `event`, if any.
pub fn read_icon(event: &VEvent) -> (r: Option<&str>)
    ensures
        match icon_of(event@.unknown) {
            Some(v) => r matches Some(s) && s@ == v,
            None => r is None,
        },
{
    match find_icon(event) {
        Some(k) => {
            assert(event@.unknown[k as int] == event.unknown[k as int]@);
            Some(event.unknown[k].value.as_str())
        },
        None => None,
    }
}

/// Write `icon` into `event`: replace the value of the first icon
/// property, or append a new one numbered one past the largest
/// `source_index`. Every other field is kept.
pub fn write_icon(event: &mut VEvent, icon: String)
    requires
        icon_position(old(event)@.unknown) is None ==> max_source_index(old(event)@.unknown) < u32::MAX,
    ensures
        final(event)@ == (crate::event::VEventView {
            unknown: with_icon(old(event)@.unknown, icon@),
            ..old(event)@
        }),
{
    let ghost ps = event@.unknown;
    match find_icon(event) {
        Some(k) => {
            let mut p = event.unknown[k].copy();
            let ghost iv = icon@;
            p.value = icon;
            let ghost pv = p@;
            event.unknown.set(k, p);
            assert(props_view(event.unknown@) =~= ps.update(k as int, pv));
        },
        None => {
            let mut next: u32 = 0;
            let mut i: usize = 0;
            while i < event.unknown.len()
                invariant
                    i <= event.unknown.len(),
                    ps == props_view(event.unknown@),
                    next == max_source_index(ps.take(i as int)),
                    max_source_index(ps) < u32::MAX,
                    icon_position(ps) is None,
                decreases event.unknown.len() - i,
            {
                let ghost t = ps.take(i + 1);
                assert(t.drop_last() =~= ps.take(i as int));
                assert(t.last() == event.unknown[i as int]@);
                if event.unknown[i].source_index > next {
                    next = event.unknown[i].source_index;
                }
                i = i + 1;
            }
            assert(ps.take(i as int) =~= ps);
            let p = RawProperty {
                name: string_of(&chars_of(ICON_PROPERTY)),
                params: Vec::new(),
                value: icon,
                source_index: next + 1,
            };
            let ghost pv = p@;
            assert(pv.params =~= Seq::<(Seq<char>, Seq<char>)>::empty());
            event.unknown.push(p);
            assert(props_view(event.unknown@) =~= ps.push(pv));
        },
    }
}

} // verus!
