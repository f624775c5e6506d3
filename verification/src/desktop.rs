//! Where the desktop program is looked for.
use vstd::prelude::*;
use vstd::string::*;
use crate::text;

verus! {

/// A path by its components: whether it starts at the root, and the names that follow. Repeated
/// and trailing separators do not count, nor does `.` except at the start of a relative path.
#[derive(Debug)]
pub struct RoutePath {
    pub absolute: bool,
    pub names: Vec<String>,
}

impl View for RoutePath {
    type V = (bool, Seq<Seq<char>>);

    open spec fn view(&self) -> (bool, Seq<Seq<char>>) {
        (self.absolute, text::views(self.names@))
    }
}

/// The pieces between the separators of a path, empty ones included.
pub open spec fn pieces(path: Seq<char>) -> Seq<Seq<char>>
    decreases path.len(),
{
    if path.len() == 0 {
        seq![Seq::empty()]
    } else {
        let before = pieces(path.drop_last());
        if path.last() == '/' {
            before.push(Seq::empty())
        } else {
            before.drop_last().push(before.last().push(path.last()))
        }
    }
}

/// The pieces that are components: those that are not empty, and `.` only as the first piece.
pub open spec fn components(parts: Seq<Seq<char>>) -> Seq<Seq<char>>
    decreases parts.len(),
{
    if parts.len() == 0 {
        Seq::empty()
    } else {
        let before = components(parts.drop_last());
        if parts.last().len() > 0 && (parts.last() != "."@ || parts.len() == 1) {
            before.push(parts.last())
        } else {
            before
        }
    }
}

/// The path that a text stands for.
pub open spec fn path_of(path: Seq<char>) -> (bool, Seq<Seq<char>>) {
    (path.len() > 0 && path[0] == '/', components(pieces(path)))
}

proof fn lemma_pieces_not_empty(path: Seq<char>)
    ensures
        pieces(path).len() > 0,
    decreases path.len(),
{
    if path.len() > 0 {
        lemma_pieces_not_empty(path.drop_last());
    }
}

/// Adds a piece to the names of a path, if it is a component.
fn add_piece(names: &mut Vec<String>, piece: String, first: bool, parts: Ghost<Seq<Seq<char>>>)
    requires
        text::views(old(names)@) == components(parts@),
        first == (parts@.len() == 0),
    ensures
        text::views(final(names)@) == components(parts@.push(piece@)),
{
    assert(parts@.push(piece@).drop_last() =~= parts@);
    if !piece.as_str().is_empty() && (!text::same(&piece, ".") || first) {
        names.push(piece);
        assert(text::views(names@) =~= components(parts@.push(piece@)));
    }
}

impl RoutePath {
    /// The path that a text stands for.
    pub fn parse(path: &str) -> (r: Self)
        ensures
            r@ == path_of(path@),
    {
        let chars: Vec<char> = text::chars_of(path);
        let mut names: Vec<String> = Vec::new();
        let mut piece: String = String::new();
        let mut first: bool = true;
        let ghost mut done: Seq<Seq<char>> = Seq::empty();
        let mut i: usize = 0;
        proof {
            assert(chars@.take(0) =~= Seq::empty());
            assert(text::views(names@) =~= Seq::empty());
            assert(done.push(piece@) =~= pieces(chars@.take(0)));
        }
        while i < chars.len()
            invariant
                i <= chars@.len(),
                chars@ == path@,
                pieces(chars@.take(i as int)) == done.push(piece@),
                text::views(names@) == components(done),
                first == (done.len() == 0),
            decreases chars@.len() - i,
        {
            let c: char = chars[i];
            proof {
                assert(chars@.take(i + 1).drop_last() =~= chars@.take(i as int));
                assert(done.push(piece@).drop_last() =~= done);
            }
            if c == '/' {
                let ghost ended = piece@;
                add_piece(&mut names, piece, first, Ghost(done));
                piece = String::new();
                first = false;
                proof {
                    done = done.push(ended);
                }
            } else {
                piece.push(c);
            }
            i = i + 1;
        }
        proof {
            assert(chars@.take(i as int) =~= path@);
        }
        add_piece(&mut names, piece, first, Ghost(done));
        let absolute: bool = chars.len() > 0 && chars[0] == '/';
        RoutePath { absolute, names }
    }

    /// The path as text.
    pub fn to_text(&self) -> (r: String)
        ensures
            r@ == shown(self@),
    {
        let mut out: String = String::new();
        if self.absolute {
            out.append("/");
        }
        out.append(&text::join_all(&self.names, "/"));
        assert("/"@ =~= Seq::empty() + "/"@);
        assert(Seq::empty() + text::join(text::views(self.names@), "/"@) =~= text::join(
            text::views(self.names@),
            "/"@,
        ));
        out
    }
}

/// A path as text.
pub open spec fn shown(path: (bool, Seq<Seq<char>>)) -> Seq<char> {
    if path.0 {
        "/"@ + text::join(path.1, "/"@)
    } else {
        text::join(path.1, "/"@)
    }
}

/// The name is that of an application bundle: its extension is `app`.
pub open spec fn is_bundle(name: Seq<char>) -> bool {
    name.len() > 4 && text::stands_at(name, ".app"@, name.len() - 4)
}

/// How many names lead to the innermost application bundle on the way to a file.
pub open spec fn bundle_depth(names: Seq<Seq<char>>) -> Option<nat>
    decreases names.len(),
{
    if names.len() == 0 {
        None
    } else if is_bundle(names.last()) {
        Some(names.len())
    } else {
        bundle_depth(names.drop_last())
    }
}

/// The folder that holds a file; the current one where the path has none.
pub open spec fn folder_of(path: (bool, Seq<Seq<char>>)) -> (bool, Seq<Seq<char>>) {
    if path.1.len() == 0 {
        (false, seq!["."@])
    } else {
        (path.0, path.1.drop_last())
    }
}

/// A path inside another.
pub open spec fn inside(path: (bool, Seq<Seq<char>>), names: Seq<Seq<char>>) -> (
    bool,
    Seq<Seq<char>>,
) {
    (path.0, path.1 + names)
}

/// The names of the desktop program inside a bundle.
pub open spec fn bundled() -> Seq<Seq<char>> {
    seq!["Contents"@, "MacOS"@, "altai-desktop"@]
}

/// The routes without those that repeat the one before them.
pub open spec fn without_repeats(routes: Seq<(bool, Seq<Seq<char>>)>) -> Seq<
    (bool, Seq<Seq<char>>),
>
    decreases routes.len(),
{
    if routes.len() <= 1 {
        routes
    } else {
        let before = without_repeats(routes.drop_last());
        if before.last() == routes.last() {
            before
        } else {
            before.push(routes.last())
        }
    }
}

/// The system that the desktop program runs on.
#[derive(Debug, Clone, Copy, PartialEq, Eq, Structural)]
pub enum DesktopPlatform {
    Windows,
    MacOs,
    Linux,
}

/// The routes on macOS: inside the bundle that holds the terminal program, beside it, and inside
/// the installed bundle.
pub open spec fn mac_routes(cli: (bool, Seq<Seq<char>>)) -> Seq<(bool, Seq<Seq<char>>)> {
    (match bundle_depth(cli.1) {
        Some(depth) => seq![inside((cli.0, cli.1.take(depth as int)), bundled())],
        None => Seq::empty(),
    }) + seq![
        inside(folder_of(cli), seq!["altai-desktop"@]),
        inside((true, seq!["Applications"@, "ALTAI.app"@]), bundled()),
    ]
}

/// The routes to the desktop program, in the order in which they are checked.
pub open spec fn desktop_routes(cli: (bool, Seq<Seq<char>>), platform: DesktopPlatform) -> Seq<
    (bool, Seq<Seq<char>>),
> {
    match platform {
        DesktopPlatform::Windows => seq![inside(folder_of(cli), seq!["altai-desktop.exe"@])],
        DesktopPlatform::Linux => seq![inside(folder_of(cli), seq!["altai-desktop"@])],
        DesktopPlatform::MacOs => without_repeats(mac_routes(cli)),
    }
}

/// The views of a list of paths.
pub open spec fn route_views(routes: Seq<RoutePath>) -> Seq<(bool, Seq<Seq<char>>)> {
    routes.map_values(|route: RoutePath| route@)
}

/// The first `count` names of a path, followed by more names.
fn prefix_with(path: &RoutePath, count: usize, more: &Vec<String>) -> (r: RoutePath)
    requires
        count <= path.names@.len(),
    ensures
        r@ == inside((path@.0, path@.1.take(count as int)), text::views(more@)),
{
    let mut names: Vec<String> = Vec::new();
    let ghost base = path@.1;
    assert(text::views(names@) =~= base.take(0));
    let mut i: usize = 0;
    while i < count
        invariant
            i <= count <= path.names@.len(),
            base == text::views(path.names@),
            text::views(names@) == base.take(i as int),
        decreases count - i,
    {
        let ghost before = text::views(names@);
        names.push(path.names[i].clone());
        assert(text::views(names@) =~= before.push(base[i as int]));
        assert(before.push(base[i as int]) =~= base.take(i + 1));
        i = i + 1;
    }
    let ghost head = text::views(names@);
    let ghost tail = text::views(more@);
    let mut j: usize = 0;
    assert(text::views(names@) =~= head + tail.take(0));
    while j < more.len()
        invariant
            j <= more@.len(),
            tail == text::views(more@),
            text::views(names@) == head + tail.take(j as int),
        decreases more@.len() - j,
    {
        let ghost before = text::views(names@);
        names.push(more[j].clone());
        assert(text::views(names@) =~= before.push(tail[j as int]));
        assert(before.push(tail[j as int]) =~= head + tail.take(j + 1));
        j = j + 1;
    }
    assert(tail.take(j as int) =~= tail);
    RoutePath { absolute: path.absolute, names }
}

/// The path of a program beside a file.
fn beside(cli: &RoutePath, program: &str) -> (r: RoutePath)
    ensures
        r@ == inside(folder_of(cli@), seq![program@]),
{
    let mut last: Vec<String> = Vec::new();
    last.push(program.to_owned());
    assert(text::views(last@) =~= seq![program@]);
    let count: usize = cli.names.len();
    if count == 0 {
        let mut names: Vec<String> = Vec::new();
        names.push(".".to_owned());
        names.push(program.to_owned());
        assert(text::views(names@) =~= seq!["."@] + seq![program@]);
        RoutePath { absolute: false, names }
    } else {
        assert(cli@.1.take(count - 1) =~= cli@.1.drop_last());
        prefix_with(cli, count - 1, &last)
    }
}

/// How many names lead to the innermost application bundle on the way to a file.
fn find_bundle(path: &RoutePath) -> (r: Option<usize>)
    ensures
        match r {
            Some(depth) => bundle_depth(path@.1) == Some(depth as nat) && depth
                <= path.names@.len(),
            None => bundle_depth(path@.1) is None,
        },
{
    let ghost names = path@.1;
    let mut depth: usize = path.names.len();
    assert(names.take(depth as int) =~= names);
    while depth > 0
        invariant
            depth <= path.names@.len(),
            names == text::views(path.names@),
            bundle_depth(names.take(depth as int)) == bundle_depth(names),
        decreases depth,
    {
        let name: Vec<char> = text::chars_of(&path.names[depth - 1]);
        assert(names.take(depth as int).last() == path.names@[depth - 1]@);
        assert(names.take(depth as int).drop_last() =~= names.take(depth - 1));
        let total: usize = name.len();
        if total > 4 {
            let ending: String = text::text_of(&name, total - 4, total);
            proof {
                reveal_strlit(".app");
                assert(name@.subrange(total - 4, total - 4 + ".app"@.len()) == ending@);
            }
            if text::same(&ending, ".app") {
                return Some(depth);
            }
        } else {
            proof {
                reveal_strlit(".app");
            }
        }
        depth = depth - 1;
    }
    None
}

/// Whether two paths have the same components.
fn same_route(a: &RoutePath, b: &RoutePath) -> (r: bool)
    ensures
        r == (a@ == b@),
{
    if a.absolute != b.absolute || a.names.len() != b.names.len() {
        assert(text::views(a.names@).len() == a.names@.len());
        assert(text::views(b.names@).len() == b.names@.len());
        return false;
    }
    let mut i: usize = 0;
    while i < a.names.len()
        invariant
            i <= a.names@.len(),
            a.names@.len() == b.names@.len(),
            forall|k: int| 0 <= k < i ==> a.names@[k]@ == b.names@[k]@,
        decreases a.names@.len() - i,
    {
        if !text::same(&a.names[i], &b.names[i]) {
            assert(a@.1[i as int] != b@.1[i as int]);
            return false;
        }
        i = i + 1;
    }
    assert(a@.1 =~= b@.1);
    true
}

/// Drops each route that repeats the one before it.
fn dedup(routes: Vec<RoutePath>) -> (r: Vec<RoutePath>)
    ensures
        route_views(r@) == without_repeats(route_views(routes@)),
{
    let ghost all = route_views(routes@);
    let mut rest: Vec<RoutePath> = routes;
    let mut out: Vec<RoutePath> = Vec::new();
    let mut turned: Vec<RoutePath> = Vec::new();
    let ghost count = rest@.len();
    while rest.len() > 0
        invariant
            rest@.len() + turned@.len() == count,
            all.len() == count,
            forall|k: int| 0 <= k < rest@.len() ==> rest@[k]@ == #[trigger] all[k],
            forall|k: int| 0 <= k < turned@.len() ==> turned@[k]@ == #[trigger] all[count - 1 - k],
        decreases rest@.len(),
    {
        let ghost at = rest@.len() - 1;
        assert(rest@[at]@ == all[at]);
        match rest.pop() {
            Some(route) => {
                turned.push(route);
            },
            None => {},
        }
    }
    let ghost mut taken: int = 0;
    assert(route_views(out@) =~= all.take(0));
    while turned.len() > 0
        invariant
            0 <= taken,
            taken + turned@.len() == count,
            all.len() == count,
            forall|k: int| 0 <= k < turned@.len() ==> turned@[k]@ == #[trigger] all[count - 1 - k],
            route_views(out@) == without_repeats(all.take(taken)),
            taken > 0 ==> out@.len() > 0,
            taken == 0 ==> out@.len() == 0,
        decreases turned@.len(),
    {
        let ghost at = turned@.len() - 1;
        assert(turned@[at]@ == all[count - 1 - at]);
        proof {
            assert(all.take(taken + 1).drop_last() =~= all.take(taken));
            assert(all.take(taken + 1).last() == all[taken]);
        }
        match turned.pop() {
            Some(route) => {
                let total: usize = out.len();
                let ghost before = route_views(out@);
                let ghost arriving = route@;
                if total == 0 || !same_route(&out[total - 1], &route) {
                    out.push(route);
                    assert(route_views(out@) =~= before.push(arriving));
                    proof {
                        if taken == 0 {
                            assert(before.push(arriving) =~= all.take(1));
                        }
                    }
                }
                proof {
                    taken = taken + 1;
                }
            },
            None => {},
        }
    }
    assert(all.take(taken) =~= all);
    out
}

/// The routes to the desktop program from the place of the terminal program.
pub fn desktop_executable_candidates_for(cli_executable: &RoutePath, platform: DesktopPlatform)
    -> (r: Vec<RoutePath>)
    ensures
        route_views(r@) == desktop_routes(cli_executable@, platform),
        r@.len() > 0,
{
    let mut routes: Vec<RoutePath> = Vec::new();
    match platform {
        DesktopPlatform::Windows => {
            routes.push(beside(cli_executable, "altai-desktop.exe"));
            assert(route_views(routes@) =~= desktop_routes(cli_executable@, platform));
            routes
        },
        DesktopPlatform::Linux => {
            routes.push(beside(cli_executable, "altai-desktop"));
            assert(route_views(routes@) =~= desktop_routes(cli_executable@, platform));
            routes
        },
        DesktopPlatform::MacOs => {
            let mut bundled_names: Vec<String> = Vec::new();
            bundled_names.push("Contents".to_owned());
            bundled_names.push("MacOS".to_owned());
            bundled_names.push("altai-desktop".to_owned());
            assert(text::views(bundled_names@) =~= bundled());
            match find_bundle(cli_executable) {
                Some(depth) => {
                    routes.push(prefix_with(cli_executable, depth, &bundled_names));
                },
                None => {},
            }
            routes.push(beside(cli_executable, "altai-desktop"));
            let mut installed: Vec<String> = Vec::new();
            installed.push("Applications".to_owned());
            installed.push("ALTAI.app".to_owned());
            let root: RoutePath = RoutePath { absolute: true, names: installed };
            assert(root@.1 =~= seq!["Applications"@, "ALTAI.app"@]);
            assert(root@.1.take(2) =~= root@.1);
            routes.push(prefix_with(&root, 2, &bundled_names));
            assert(route_views(routes@) =~= mac_routes(cli_executable@));
            let kept: Vec<RoutePath> = dedup(routes);
            proof {
                lemma_kept_not_empty(mac_routes(cli_executable@));
                assert(route_views(kept@).len() == kept@.len());
            }
            kept
        },
    }
}

proof fn lemma_kept_not_empty(routes: Seq<(bool, Seq<Seq<char>>)>)
    requires
        routes.len() > 0,
    ensures
        without_repeats(routes).len() > 0,
    decreases routes.len(),
{
    if routes.len() > 1 {
        lemma_kept_not_empty(routes.drop_last());
    }
}

/// The routes as texts.
fn route_texts(routes: &Vec<RoutePath>) -> (r: Vec<String>)
    ensures
        text::views(r@) == route_views(routes@).map_values(
            |route: (bool, Seq<Seq<char>>)| shown(route),
        ),
{
    let mut out: Vec<String> = Vec::new();
    let mut i: usize = 0;
    while i < routes.len()
        invariant
            i <= routes@.len(),
            out@.len() == i,
            forall|k: int| 0 <= k < i ==> (#[trigger] out@[k])@ == shown(routes@[k]@),
        decreases routes@.len() - i,
    {
        out.push(routes[i].to_text());
        i = i + 1;
    }
    assert(text::views(out@) =~= route_views(routes@).map_values(
        |route: (bool, Seq<Seq<char>>)| shown(route),
    ));
    out
}

/// What is said when the desktop program stands on none of the routes.
pub open spec fn missing_words(routes: Seq<(bool, Seq<Seq<char>>)>) -> Seq<char> {
    "ALTAI Desktop was not found. Checked: "@ + text::join(
        routes.map_values(|route: (bool, Seq<Seq<char>>)| shown(route)),
        ", "@,
    ) + ". Reinstall ALTAI with the unified installer."@
}

/// What is said when the desktop program stands on none of the routes.
pub fn missing_desktop_message(candidates: &Vec<RoutePath>) -> (r: String)
    ensures
        r@ == missing_words(route_views(candidates@)),
{
    let mut out: String = "ALTAI Desktop was not found. Checked: ".to_owned();
    out.append(&text::join_all(&route_texts(candidates), ", "));
    out.append(". Reinstall ALTAI with the unified installer.");
    out
}

/// Something stands on none of the routes.
pub open spec fn none_stands(present: Seq<bool>) -> bool {
    forall|k: int| 0 <= k < present.len() ==> !present[k]
}

/// The route is the first one at which something stands, or the first one of all.
pub open spec fn is_chosen(present: Seq<bool>, route: int) -> bool {
    &&& 0 <= route < present.len()
    &&& forall|k: int| 0 <= k < route ==> !present[k]
    &&& !present[route] ==> route == 0 && none_stands(present)
}

/// The route that is taken: the first one at which something stands, or the first one of all.
pub fn chosen_desktop(present: &Vec<bool>) -> (r: usize)
    requires
        present@.len() > 0,
    ensures
        is_chosen(present@, r as int),
{
    let mut i: usize = 0;
    while i < present.len()
        invariant
            i <= present@.len(),
            forall|k: int| 0 <= k < i ==> !present@[k],
        decreases present@.len() - i,
    {
        if present[i] {
            return i;
        }
        i = i + 1;
    }
    0
}

} // verus!
