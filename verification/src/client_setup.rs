//! How a client is set up: its canvas, its name and where its media lives.

use vstd::prelude::*;

use crate::identity::{Identity, IdentityModel};
use crate::text;
use crate::text::{parse_u32, split_once, trim};

verus! {

/// The size and frame rate of the picture.
#[derive(Debug, Clone, Copy, PartialEq, Eq, Structural)]
pub struct Canvas {
    pub width: u32,
    pub height: u32,
    /// The frame rate is `fps_n / fps_d` frames a second.
    pub fps_n: u32,
    pub fps_d: u32,
}

/// The number that a text spells, white space around it aside.
pub open spec fn number_of(s: Seq<char>) -> Option<u32> {
    let t = text::trimmed(s);
    if text::spells_u32(t) {
        Some(text::digits_value(text::unsigned_part(t)) as u32)
    } else {
        None
    }
}

/// The canvas that a text describes as width, an `x`, height, an `@` and frames a
/// second.
pub open spec fn canvas_of(spec_text: Seq<char>) -> Option<Canvas> {
    let at = text::find(spec_text, '@');
    let size = spec_text.take(at);
    let by = text::find(size, 'x');
    if at < spec_text.len() && by < size.len() {
        match (
            number_of(size.take(by)),
            number_of(size.skip(by + 1)),
            number_of(spec_text.skip(at + 1)),
        ) {
            (Some(width), Some(height), Some(fps_n)) => Some(
                Canvas { width, height, fps_n, fps_d: 1 },
            ),
            _ => None,
        }
    } else {
        None
    }
}

fn read_number(s: &str) -> (r: Option<u32>)
    ensures
        r == number_of(s@),
{
    parse_u32(trim(s))
}

/// Parse `WxH@FPS` (e.g. `1280x720@30`); `None` on any malformed part.
pub fn parse_canvas(spec_text: &str) -> (r: Option<Canvas>)
    ensures
        r == canvas_of(spec_text@),
{
    match split_once(spec_text, '@') {
        Some((size, fps)) => match split_once(size, 'x') {
            Some((w, h)) => match (read_number(w), read_number(h), read_number(fps)) {
                (Some(width), Some(height), Some(fps_n)) => Some(
                    Canvas { width, height, fps_n, fps_d: 1 },
                ),
                _ => None,
            },
            None => None,
        },
        None => None,
    }
}

/// A client's display name: the configured one, else that of the machine, else a
/// fixed one.
pub open spec fn name_or_host(
    configured: Option<Seq<char>>,
    hostname: Option<Seq<char>>,
    computer_name: Option<Seq<char>>,
) -> Seq<char> {
    match (configured, hostname, computer_name) {
        (Some(n), _, _) => n,
        (None, Some(n), _) => n,
        (None, None, Some(n)) => n,
        (None, None, None) => "cuemesh-client"@,
    }
}

/// A client's display name.
pub fn client_name(
    configured: &Option<String>,
    hostname: &Option<String>,
    computer_name: &Option<String>,
) -> (r: String)
    ensures
        r@ == name_or_host(
            configured.deep_view(),
            hostname.deep_view(),
            computer_name.deep_view(),
        ),
{
    match (configured, hostname, computer_name) {
        (Some(n), _, _) => n.clone(),
        (None, Some(n), _) => n.clone(),
        (None, None, Some(n)) => n.clone(),
        (None, None, None) => "cuemesh-client".to_owned(),
    }
}

/// The name a client goes by: the one the controller assigned overrides every
/// other.
pub open spec fn name_of(identity: IdentityModel, otherwise: Seq<char>) -> Seq<char> {
    match identity.assigned_name {
        Some(n) => n,
        None => otherwise,
    }
}

/// The name a client goes by: the one the controller assigned, else the
/// configured one, else that of the machine.
pub fn display_name(
    identity: &Identity,
    configured: &Option<String>,
    hostname: &Option<String>,
    computer_name: &Option<String>,
) -> (r: String)
    ensures
        r@ == name_of(
            identity@,
            name_or_host(configured.deep_view(), hostname.deep_view(), computer_name.deep_view()),
        ),
{
    match &identity.assigned_name {
        Some(n) => n.clone(),
        None => client_name(configured, hostname, computer_name),
    }
}

/// Where a client's media lives: the configured directory, else one in the home
/// directory, else one here.
pub open spec fn media_root_of(configured: Option<Seq<char>>, home: Option<Seq<char>>) -> Seq<char> {
    match configured {
        Some(p) => p,
        None => crate::paths::joined(
            match home {
                Some(h) => h,
                None => "."@,
            },
            "cuemesh_media"@,
        ),
    }
}

/// Where a client's media lives.
pub fn media_root(configured: &Option<String>, home: &Option<String>) -> (r: String)
    ensures
        r@ == media_root_of(configured.deep_view(), home.deep_view()),
{
    match configured {
        Some(p) => p.clone(),
        None => crate::paths::join_path(
            match home {
                Some(h) => h.as_str(),
                None => ".",
            },
            "cuemesh_media",
        ),
    }
}

/// A canvas is described by what stands before the first `x`, between that and
/// the first `@`, and behind the `@`: each must spell a number, white space aside,
/// and they are width, height and frames a second.
pub proof fn law_canvas_by_its_parts(w: Seq<char>, h: Seq<char>, fps: Seq<char>)
    requires
        !w.contains('x'),
        !w.contains('@'),
        !h.contains('@'),
    ensures
        ({
            let described = canvas_of(w + seq!['x'] + h + seq!['@'] + fps);
            match (number_of(w), number_of(h), number_of(fps)) {
                (Some(width), Some(height), Some(fps_n)) => {
                    &&& described is Some
                    &&& described->0.width == width
                    &&& described->0.height == height
                    &&& described->0.fps_n == fps_n
                    &&& described->0.fps_d == 1
                },
                _ => described is None,
            }
        }),
{
    let size = w + seq!['x'] + h;
    let s = size + seq!['@'] + fps;
    assert(w + seq!['x'] + h + seq!['@'] + fps =~= s);
    let at = size.len() as int;
    text::law_find_first(s, '@');
    assert(s[at] == '@');
    if text::find(s, '@') < at {
        let k = text::find(s, '@');
        if k < w.len() {
            assert(w[k] == '@');
        } else if k > w.len() {
            assert(h[k - w.len() - 1] == '@');
        }
    }
    assert(text::find(s, '@') == at);
    assert(s.take(at) =~= size);
    assert(s.skip(at + 1) =~= fps);
    let by = w.len() as int;
    text::law_find_first(size, 'x');
    assert(size[by] == 'x');
    if text::find(size, 'x') < by {
        assert(w[text::find(size, 'x')] == 'x');
    }
    assert(size.take(by) =~= w);
    assert(size.skip(by + 1) =~= h);
}

/// A text without an `@`, or without an `x` before the first `@`, describes no
/// canvas.
pub proof fn law_no_canvas_without_its_signs(size: Seq<char>, fps: Seq<char>)
    requires
        !size.contains('@'),
    ensures
        canvas_of(size) is None,
        !size.contains('x') ==> canvas_of(size + seq!['@'] + fps) is None,
{
    text::law_find_first(size, '@');
    if text::find(size, '@') < size.len() {
        assert(size.contains('@'));
    }
    let s = size + seq!['@'] + fps;
    let at = size.len() as int;
    text::law_find_first(s, '@');
    assert(s[at] == '@');
    if text::find(s, '@') < at {
        assert(size[text::find(s, '@')] == '@');
    }
    assert(s.take(at) =~= size);
    text::law_find_first(size, 'x');
    if text::find(size, 'x') < size.len() {
        assert(size.contains('x'));
    }
}

/// Every 32-bit number is read from its decimal digits, with a plus sign before
/// it or not, and with white space around it or not.
pub proof fn law_number_from_its_digits(left: Seq<char>, n: u32, right: Seq<char>)
    requires
        forall|k: int| 0 <= k < left.len() ==> text::white_space(#[trigger] left[k]),
        forall|k: int| 0 <= k < right.len() ==> text::white_space(#[trigger] right[k]),
    ensures
        number_of(left + text::decimal(n as nat) + right) == Some(n),
        number_of(left + (seq!['+'] + text::decimal(n as nat)) + right) == Some(n),
{
    let d = text::decimal(n as nat);
    let p = seq!['+'] + d;
    text::law_decimal_reads_back(n as nat);
    text::law_what_spells_a_number(d, n);
    assert('0' <= d[0] <= '9' && '0' <= d[d.len() - 1] <= '9');
    assert(d[0] != '+');
    assert(p[p.len() - 1] == d[d.len() - 1]);
    text::law_trimmed_core(left, d, right);
    text::law_trimmed_core(left, p, right);
}

/// A canvas reads back from the text that gives its width, height and whole frame
/// rate in decimal.
pub proof fn law_canvas_reads_back(width: u32, height: u32, fps: u32)
    ensures
        canvas_of(
            text::decimal(width as nat) + seq!['x'] + text::decimal(height as nat) + seq!['@']
                + text::decimal(fps as nat),
        ) == Some(Canvas { width, height, fps_n: fps, fps_d: 1 }),
{
    let none = Seq::<char>::empty();
    let w = text::decimal(width as nat);
    let h = text::decimal(height as nat);
    let f = text::decimal(fps as nat);
    text::law_decimal_reads_back(width as nat);
    text::law_decimal_reads_back(height as nat);
    law_number_from_its_digits(none, width, none);
    law_number_from_its_digits(none, height, none);
    law_number_from_its_digits(none, fps, none);
    assert(none + w + none =~= w);
    assert(none + h + none =~= h);
    assert(none + f + none =~= f);
    law_canvas_by_its_parts(w, h, f);
}

/// A client goes by the name the controller assigned, whatever else it has; else
/// by the configured one; else by that of the machine, the host's before the
/// computer's; else by a fixed one.
pub proof fn law_which_name_counts(
    identity: IdentityModel,
    configured: Option<Seq<char>>,
    hostname: Option<Seq<char>>,
    computer_name: Option<Seq<char>>,
)
    ensures
        ({
            let name = name_of(identity, name_or_host(configured, hostname, computer_name));
            if identity.assigned_name is Some {
                name == identity.assigned_name->0
            } else if configured is Some {
                name == configured->0
            } else if hostname is Some {
                name == hostname->0
            } else if computer_name is Some {
                name == computer_name->0
            } else {
                name == "cuemesh-client"@
            }
        }),
{
}

/// Media live in the configured directory; without one in `cuemesh_media` under
/// the home directory, or here where that is not known.
pub proof fn law_where_media_live(path: Seq<char>, home: Seq<char>, any: Option<Seq<char>>)
    ensures
        media_root_of(Some(path), any) == path,
        media_root_of(None, Some(home)) == crate::paths::joined(home, "cuemesh_media"@),
        media_root_of(None, None) == media_root_of(None, Some("."@)),
{
}

} // verus!
