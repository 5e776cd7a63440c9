//! What is decided from facts about native windows.

use crate::config::{rule_matches, FloatRule};
use crate::geometry::{as_u32, wrap_u32};
use crate::layout::is_i32;
use crate::text::{chars_of, same};
use crate::window::Rect;
use vstd::prelude::*;
use vstd::string::*;

verus! {

// ── Rectangles ───────────────────────────────────────────────────────────────

/// A native rectangle, given by its edges.
#[derive(Debug, Clone, Copy, PartialEq, Eq, Structural)]
pub struct Edges {
    pub left: i32,
    pub top: i32,
    pub right: i32,
    pub bottom: i32,
}

/// The distances between the edges are representable.
pub open spec fn edges_fit(e: Edges) -> bool {
    is_i32(e.right - e.left) && is_i32(e.bottom - e.top)
}

/// The rectangle with these edges.
pub open spec fn edges_rect(e: Edges) -> Rect {
    Rect {
        x: e.left,
        y: e.top,
        width: wrap_u32(e.right - e.left) as u32,
        height: wrap_u32(e.bottom - e.top) as u32,
    }
}

/// The rectangle with these edges.
pub fn rect_from_edges(e: Edges) -> (r: Rect)
    requires
        edges_fit(e),
    ensures
        r == edges_rect(e),
{
    Rect::new(e.left, e.top, as_u32(e.right - e.left), as_u32(e.bottom - e.top))
}

/// The frame can be measured.
pub open spec fn frame_fits(frame: Option<Edges>) -> bool {
    frame matches Some(e) ==> is_i32(e.right - e.left) && (e.right > e.left ==> is_i32(
        e.bottom - e.top,
    ))
}

/// The visible part of a window: the frame that the compositor reports, unless
/// it reports none or one without area.
pub open spec fn visible_part(frame: Option<Edges>, fallback: Rect) -> Rect {
    match frame {
        Some(e) => if e.right > e.left && e.bottom > e.top {
            edges_rect(e)
        } else {
            fallback
        },
        None => fallback,
    }
}

/// The visible part of a window.  Windows have invisible resize borders, which
/// their own geometry counts and the compositor's frame does not.
pub fn visible_rect(frame: Option<Edges>, fallback: Rect) -> (r: Rect)
    requires
        frame_fits(frame),
    ensures
        r == visible_part(frame, fallback),
{
    match frame {
        Some(e) => if e.right - e.left > 0 && e.bottom - e.top > 0 {
            rect_from_edges(e)
        } else {
            fallback
        },
        None => fallback,
    }
}

// ── Monitors ─────────────────────────────────────────────────────────────────

/// `r` put into a list, after all that do not begin further right.
pub open spec fn insert_by_x(rects: Seq<Rect>, r: Rect) -> Seq<Rect>
    decreases rects.len(),
{
    if rects.len() == 0 || rects.last().x <= r.x {
        rects.push(r)
    } else {
        insert_by_x(rects.drop_last(), r).push(rects.last())
    }
}

/// A list ordered from left to right; what begins at the same place keeps its
/// order.
pub open spec fn left_to_right(rects: Seq<Rect>) -> Seq<Rect>
    decreases rects.len(),
{
    if rects.len() == 0 {
        rects
    } else {
        insert_by_x(left_to_right(rects.drop_last()), rects.last())
    }
}

/// The monitor areas, ordered from left to right; `fallback` alone where none
/// is known.
pub fn order_monitors(rects: &Vec<Rect>, fallback: Rect) -> (r: Vec<Rect>)
    ensures
        r@ == (if rects@.len() == 0 {
            seq![fallback]
        } else {
            left_to_right(rects@)
        }),
{
    if rects.len() == 0 {
        let only: Vec<Rect> = vec![fallback];
        assert(only@ =~= seq![fallback]);
        return only;
    }
    let mut r: Vec<Rect> = Vec::new();
    let mut i: usize = 0;
    assert(rects@.take(0) =~= Seq::<Rect>::empty());
    while i < rects.len()
        invariant
            i <= rects@.len(),
            r@ == left_to_right(rects@.take(i as int)),
        decreases rects@.len() - i,
    {
        assert(rects@.take(i + 1).drop_last() =~= rects@.take(i as int));
        assert(rects@.take(i + 1).last() == rects@[i as int]);
        let x = rects[i];
        let ghost before = r@;
        let mut k: usize = r.len();
        assert(before.take(k as int) =~= before);
        assert(before.skip(k as int) =~= Seq::<Rect>::empty());
        assert(insert_by_x(before, x) =~= insert_by_x(before.take(k as int), x) + before.skip(
            k as int,
        ));
        while k > 0 && r[k - 1].x > x.x
            invariant
                k <= before.len(),
                r@ == before,
                insert_by_x(before, x) == insert_by_x(before.take(k as int), x) + before.skip(
                    k as int,
                ),
            decreases k,
        {
            let ghost head = before.take(k as int);
            assert(head.last() == before[k - 1]);
            assert(head.drop_last() =~= before.take(k - 1));
            assert(insert_by_x(head, x) =~= insert_by_x(before.take(k - 1), x).push(before[k - 1]));
            assert(before.skip(k - 1) =~= seq![before[k - 1]] + before.skip(k as int));
            assert(insert_by_x(before, x) =~= insert_by_x(before.take(k - 1), x) + before.skip(
                k - 1,
            ));
            k -= 1;
        }
        assert(insert_by_x(before.take(k as int), x) =~= before.take(k as int).push(x)) by {
            if k > 0 {
                assert(before.take(k as int).last() == before[k - 1]);
            }
        }
        r.insert(k, x);
        assert(r@ =~= before.take(k as int).push(x) + before.skip(k as int));
        i += 1;
    }
    assert(rects@.take(i as int) =~= rects@);
    r
}

proof fn lemma_insert_by_x(rects: Seq<Rect>, r: Rect)
    requires
        forall|i: int, j: int|
            0 <= i < j < rects.len() ==> (#[trigger] rects[i]).x <= (#[trigger] rects[j]).x,
    ensures
        ({
            let t = insert_by_x(rects, r);
            &&& t.len() == rects.len() + 1
            &&& t.to_multiset() == rects.to_multiset().insert(r)
            &&& forall|i: int, j: int|
                0 <= i < j < t.len() ==> (#[trigger] t[i]).x <= (#[trigger] t[j]).x
            &&& forall|i: int|
                0 <= i < t.len() ==> rects.len() == 0 || (#[trigger] t[i]).x <= rects.last().x
                    || t[i].x <= r.x
        }),
    decreases rects.len(),
{
    broadcast use vstd::seq_lib::group_to_multiset_ensures;

    let t = insert_by_x(rects, r);
    if rects.len() == 0 || rects.last().x <= r.x {
        assert(t.to_multiset() =~= rects.to_multiset().insert(r));
    } else {
        let rest = rects.drop_last();
        let last = rects.last();
        lemma_insert_by_x(rest, r);
        assert(rects =~= rest.push(last));
        assert(rects.to_multiset() =~= rest.to_multiset().insert(last));
        assert(t.to_multiset() =~= insert_by_x(rest, r).to_multiset().insert(last));
        assert(t.to_multiset() =~= rects.to_multiset().insert(r));
        assert forall|i: int, j: int| 0 <= i < j < t.len() implies (#[trigger] t[i]).x <= (
        #[trigger] t[j]).x by {
            if j == t.len() - 1 {
                assert(t[i] == insert_by_x(rest, r)[i]);
                if rest.len() > 0 {
                    assert(rects[rects.len() - 2].x <= rects[rects.len() - 1].x);
                }
            }
        }
    }
}

/// The first monitor is the leftmost, and ordering neither adds nor drops one.
pub proof fn monitors_are_left_to_right(rects: Seq<Rect>)
    ensures
        left_to_right(rects).to_multiset() == rects.to_multiset(),
        forall|i: int, j: int|
            0 <= i < j < left_to_right(rects).len() ==> (#[trigger] left_to_right(rects)[i]).x <= (
            #[trigger] left_to_right(rects)[j]).x,
    decreases rects.len(),
{
    broadcast use vstd::seq_lib::group_to_multiset_ensures;

    if rects.len() > 0 {
        monitors_are_left_to_right(rects.drop_last());
        lemma_insert_by_x(left_to_right(rects.drop_last()), rects.last());
        assert(rects =~= rects.drop_last().push(rects.last()));
        assert(rects.to_multiset() =~= rects.drop_last().to_multiset().insert(rects.last()));
    }
}

// ── Which windows are managed ────────────────────────────────────────────────

/// Window style bits of a caption.
pub const WS_CAPTION: u32 = 0x00C0_0000;

/// Window style bit of a border that can be dragged.
pub const WS_THICKFRAME: u32 = 0x0004_0000;

/// Window style bit of a maximise button.
pub const WS_MAXIMIZEBOX: u32 = 0x0001_0000;

/// Extended window style bit of tool windows.
pub const WS_EX_TOOLWINDOW: u32 = 0x0000_0080;

/// Extended window style bit of windows that can be transparent.
pub const WS_EX_LAYERED: u32 = 0x0008_0000;

/// What the system reports of a native window.
#[derive(Debug)]
pub struct NativeWindow {
    pub hwnd: isize,
    pub visible: bool,
    /// Whether another window owns it.
    pub owned: bool,
    pub style: u32,
    pub ex_style: u32,
    pub title: String,
    /// Nonzero while the compositor keeps the window from being drawn.
    pub cloaked: u32,
    /// Class name; empty where it cannot be read.
    pub class: String,
    /// File name of its program; empty where it cannot be read.
    pub exe: String,
    /// Where it stands, if that can be read.
    pub edges: Option<Edges>,
}

/// Classes of the shell's own windows and of border overlays.
pub open spec fn is_shell_class(class: Seq<char>) -> bool {
    ||| class == "Shell_TrayWnd"@
    ||| class == "Shell_SecondaryTrayWnd"@
    ||| class == "Progman"@
    ||| class == "WorkerW"@
    ||| class == "DV2ControlHost"@
    ||| class == "Windows.UI.Core.CoreWindow"@
    ||| class == "shellwright_border"@
}

/// A window is managed if it is a visible, titled, captioned top-level window
/// of an application.
pub open spec fn manageable(w: NativeWindow) -> bool {
    &&& w.visible
    &&& !w.owned
    &&& w.ex_style & WS_EX_TOOLWINDOW == 0
    &&& w.style & WS_CAPTION != 0
    &&& w.title@.len() > 0
    &&& w.cloaked == 0
    &&& !is_shell_class(w.class@)
}

fn is_shell(class: &str) -> (r: bool)
    ensures
        r == is_shell_class(class@),
{
    same(class, "Shell_TrayWnd") || same(class, "Shell_SecondaryTrayWnd") || same(class, "Progman")
        || same(class, "WorkerW") || same(class, "DV2ControlHost") || same(
        class,
        "Windows.UI.Core.CoreWindow",
    ) || same(class, "shellwright_border")
}

/// Whether a native window is to be managed.
pub fn is_manageable(w: &NativeWindow) -> (r: bool)
    ensures
        r == manageable(*w),
{
    let titled = chars_present(w.title.as_str());
    w.visible && !w.owned && w.ex_style & WS_EX_TOOLWINDOW == 0 && w.style & WS_CAPTION != 0
        && titled && w.cloaked == 0 && !is_shell(w.class.as_str())
}

fn chars_present(s: &str) -> (r: bool)
    ensures
        r == (s@.len() > 0),
{
    chars_of(s).len() > 0
}

/// Some rule matches.
pub open spec fn some_rule_matches(
    rules: Seq<FloatRule>,
    class: Seq<char>,
    title: Seq<char>,
    exe: Seq<char>,
) -> bool {
    exists|i: int| 0 <= i < rules.len() && rule_matches(#[trigger] rules[i], class, title, exe)
}

/// A window starts out floating if it is a system dialog, if it has a caption
/// but a fixed size, or if a rule of the user matches it.
pub open spec fn floats(w: NativeWindow, rules: Seq<FloatRule>) -> bool {
    ||| w.class@ == "#32770"@
    ||| (w.style & WS_CAPTION != 0 && w.style & WS_THICKFRAME == 0 && w.style & WS_MAXIMIZEBOX == 0)
    ||| some_rule_matches(rules, w.class@, w.title@, w.exe@)
}

/// Whether a native window starts out floating.
pub fn should_float(w: &NativeWindow, rules: &Vec<FloatRule>) -> (r: bool)
    ensures
        r == floats(*w, rules@),
{
    if same(w.class.as_str(), "#32770") {
        return true;
    }
    if w.style & WS_CAPTION != 0 && w.style & WS_THICKFRAME == 0 && w.style & WS_MAXIMIZEBOX == 0 {
        return true;
    }
    let mut i: usize = 0;
    while i < rules.len()
        invariant
            i <= rules@.len(),
            forall|j: int|
                0 <= j < i ==> !rule_matches(#[trigger] rules@[j], w.class@, w.title@, w.exe@),
        decreases rules@.len() - i,
    {
        if rules[i].matches(w.class.as_str(), w.title.as_str(), w.exe.as_str()) {
            assert(rule_matches(rules@[i as int], w.class@, w.title@, w.exe@));
            return true;
        }
        i += 1;
    }
    false
}

// ── Colours and styles ───────────────────────────────────────────────────────

/// Convert `0x00RRGGBB` to the system's `0x00BBGGRR`.
pub fn rgb_to_colorref(rgb: u32) -> (r: u32)
    ensures
        r == colorref(rgb),
{
    let red: u32 = (rgb >> 16) & 0xFF;
    let green: u32 = (rgb >> 8) & 0xFF;
    let blue: u32 = rgb & 0xFF;
    proof {
        lemma_colorref_bits(rgb);
    }
    red | (green << 8) | (blue << 16)
}

/// The colour with its red and blue parts exchanged.
pub open spec fn colorref(rgb: u32) -> int {
    (rgb as int / 0x1_0000) % 0x100 + (rgb as int / 0x100) % 0x100 * 0x100 + rgb as int % 0x100
        * 0x1_0000
}

/// The colour with its red and blue bytes exchanged, by its bits.
spec fn swapped_bits(rgb: u32) -> u32 {
    ((rgb >> 16u32) & 0xFF) | (((rgb >> 8u32) & 0xFF) << 8u32) | ((rgb & 0xFF) << 16u32)
}

proof fn lemma_colorref_bits(rgb: u32)
    ensures
        colorref(rgb) == swapped_bits(rgb),
        swapped_bits(rgb) < 0x100_0000,
{
    assert((((rgb >> 16u32) & 0xFF) | (((rgb >> 8u32) & 0xFF) << 8u32) | ((rgb & 0xFF) << 16u32))
        == (rgb / 0x1_0000) % 0x100 + ((rgb / 0x100) % 0x100) * 0x100 + (rgb % 0x100) * 0x1_0000)
        by (bit_vector);
    assert((((rgb >> 16u32) & 0xFF) | (((rgb >> 8u32) & 0xFF) << 8u32) | ((rgb & 0xFF) << 16u32))
        < 0x100_0000) by (bit_vector);
}

/// Exchanging red and blue twice restores a colour; what stands above its three
/// bytes is dropped.
pub proof fn colorref_undoes_itself(rgb: u32)
    ensures
        0 <= colorref(rgb) < 0x100_0000,
        colorref(colorref(rgb) as u32) == rgb & 0x00FF_FFFF,
{
    let c = swapped_bits(rgb);
    lemma_colorref_bits(rgb);
    lemma_colorref_bits(c);
    assert((((c >> 16u32) & 0xFF) | (((c >> 8u32) & 0xFF) << 8u32) | ((c & 0xFF) << 16u32)) == rgb
        & 0x00FF_FFFF) by (bit_vector)
        requires
            c == ((rgb >> 16u32) & 0xFF) | (((rgb >> 8u32) & 0xFF) << 8u32) | ((rgb & 0xFF) << 16u32),
    ;
}

/// The style that a window needs to become transparent, if it differs from the
/// one that it has.
pub fn layered_style(ex_style: u32) -> (r: Option<u32>)
    ensures
        r == (if ex_style & WS_EX_LAYERED == 0 {
            Some(ex_style | WS_EX_LAYERED)
        } else {
            None
        }),
{
    if ex_style & WS_EX_LAYERED == 0 {
        Some(ex_style | WS_EX_LAYERED)
    } else {
        None
    }
}

/// The style that a window needs to become opaque, if it differs from the one
/// that it has.
pub fn opaque_style(ex_style: u32) -> (r: Option<u32>)
    ensures
        r == (if ex_style & WS_EX_LAYERED != 0 {
            Some(ex_style & !WS_EX_LAYERED)
        } else {
            None
        }),
{
    if ex_style & WS_EX_LAYERED != 0 {
        Some(ex_style & !WS_EX_LAYERED)
    } else {
        None
    }
}

/// Making a window transparent and then opaque restores its style.
pub proof fn opaque_undoes_layered(ex_style: u32)
    requires
        ex_style & WS_EX_LAYERED == 0,
    ensures
        (ex_style | WS_EX_LAYERED) & WS_EX_LAYERED != 0,
        (ex_style | WS_EX_LAYERED) & !WS_EX_LAYERED == ex_style,
{
    assert(ex_style & 0x0008_0000 == 0 ==> (ex_style | 0x0008_0000) & 0x0008_0000 != 0 && (ex_style
        | 0x0008_0000) & !0x0008_0000u32 == ex_style) by (bit_vector);
}

} // verus!
