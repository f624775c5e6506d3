//! Where the desktop program is looked for, said of the paths themselves.
use vstd::prelude::*;
use vstd::string::*;
use crate::desktop::DesktopPlatform;
use crate::text;

verus! {

/// A joined list with its last part taken longer by one character.
proof fn lemma_join_longer(parts: Seq<Seq<char>>, separator: Seq<char>, c: char)
    requires
        parts.len() > 0,
    ensures
        text::join(parts.drop_last().push(parts.last().push(c)), separator) == text::join(
            parts,
            separator,
        ).push(c),
{
    let longer = parts.drop_last().push(parts.last().push(c));
    assert(longer.drop_last() =~= parts.drop_last());
    if parts.len() > 1 {
        assert(text::join(longer, separator) =~= text::join(parts, separator).push(c));
    }
}

/// A joined list with an empty part more.
proof fn lemma_join_empty(parts: Seq<Seq<char>>, separator: Seq<char>)
    requires
        parts.len() > 0,
    ensures
        text::join(parts.push(Seq::empty()), separator) == text::join(parts, separator) + separator,
{
    let longer = parts.push(Seq::<char>::empty());
    assert(longer.drop_last() =~= parts);
    assert(text::join(longer, separator) =~= text::join(parts, separator) + separator);
}

/// A path is cut at its slashes and nowhere else: the pieces hold none, and joined by slashes they
/// are the path again.
pub proof fn law_pieces_are_cut_at_slashes(path: Seq<char>)
    ensures
        crate::desktop::pieces(path).len() > 0,
        forall|i: int|
            0 <= i < crate::desktop::pieces(path).len() ==> !(
            #[trigger] crate::desktop::pieces(path)[i]).contains('/'),
        text::join(crate::desktop::pieces(path), "/"@) == path,
    decreases path.len(),
{
    reveal_strlit("/");
    let all = crate::desktop::pieces(path);
    if path.len() == 0 {
        assert(text::join(all, "/"@) =~= path);
    } else {
        let shorter = path.drop_last();
        let before = crate::desktop::pieces(shorter);
        law_pieces_are_cut_at_slashes(shorter);
        if path.last() == '/' {
            lemma_join_empty(before, "/"@);
            assert(shorter + "/"@ =~= path);
            assert forall|i: int| 0 <= i < all.len() implies !(#[trigger] all[i]).contains('/') by {
                if i < before.len() {
                    assert(all[i] == before[i]);
                }
            }
        } else {
            lemma_join_longer(before, "/"@, path.last());
            assert(shorter.push(path.last()) =~= path);
            assert forall|i: int| 0 <= i < all.len() implies !(#[trigger] all[i]).contains('/') by {
                if i < before.len() - 1 {
                    assert(all[i] == before[i]);
                } else {
                    let old_last = before[before.len() - 1];
                    assert(all[i] == old_last.push(path.last()));
                    assert forall|k: int| 0 <= k < all[i].len() implies all[i][k] != '/' by {
                        if k < old_last.len() {
                            assert(all[i][k] == old_last[k]);
                            assert(!old_last.contains('/'));
                        }
                    }
                }
            }
        }
    }
}

/// A piece names something.
pub open spec fn is_name() -> spec_fn(Seq<char>) -> bool {
    |piece: Seq<char>| piece.len() > 0 && piece != "."@
}

/// The components of a path are its pieces in order without the empty ones and without those that
/// stand for the folder itself, but for one at the very front.
pub proof fn law_components_are_the_names(parts: Seq<Seq<char>>)
    requires
        parts.len() > 0,
    ensures
        crate::desktop::components(parts) == (if parts[0].len() > 0 {
            seq![parts[0]]
        } else {
            Seq::empty()
        }) + parts.skip(1).filter(is_name()),
    decreases parts.len(),
{
    let first = if parts[0].len() > 0 {
        seq![parts[0]]
    } else {
        Seq::empty()
    };
    reveal(Seq::filter);
    let rest = parts.skip(1);
    if parts.len() == 1 {
        assert(rest.len() == 0);
        assert(crate::desktop::components(parts.drop_last()) =~= Seq::<Seq<char>>::empty());
        assert(crate::desktop::components(parts) =~= first + rest.filter(is_name()));
    } else {
        let shorter = parts.drop_last();
        law_components_are_the_names(shorter);
        assert(shorter[0] == parts[0]);
        assert(rest.drop_last() =~= shorter.skip(1));
        assert(rest.last() == parts.last());
        assert(crate::desktop::components(parts) =~= first + rest.filter(is_name()));
    }
}

/// A path is absolute exactly where it begins with a slash, and its names are the components of its
/// pieces; shown again, the names are joined by slashes, with one in front where it is absolute.
pub proof fn law_paths_are_shown_as_they_are(
    path: Seq<char>,
    absolute: bool,
    names: Seq<Seq<char>>,
)
    requires
        crate::desktop::path_of(path) == (absolute, names),
    ensures
        absolute <==> path.len() > 0 && path[0] == '/',
        names == crate::desktop::components(crate::desktop::pieces(path)),
        absolute ==> crate::desktop::shown((absolute, names)) == "/"@ + text::join(names, "/"@),
        !absolute ==> crate::desktop::shown((absolute, names)) == text::join(names, "/"@),
{
}

/// A bundle is named by at least one character and the four of its ending.
pub proof fn law_bundles_have_an_ending(name: Seq<char>)
    ensures
        crate::desktop::is_bundle(name) <==> name.len() > 4 && name[name.len() - 4] == '.'
            && name[name.len() - 3] == 'a' && name[name.len() - 2] == 'p' && name[name.len() - 1]
            == 'p',
{
    reveal_strlit(".app");
    let n = name.len() as int;
    if name.len() > 4 {
        let end = name.subrange(n - 4, n);
        assert(end[0] == name[n - 4] && end[1] == name[n - 3] && end[2] == name[n - 2] && end[3]
            == name[n - 1]);
        if name[n - 4] == '.' && name[n - 3] == 'a' && name[n - 2] == 'p' && name[n - 1] == 'p' {
            assert(end =~= ".app"@);
        }
    }
}

/// The bundle that a program stands in is the innermost one: its name is a bundle's, and none behind
/// it is.
pub proof fn law_innermost_bundle_is_found(names: Seq<Seq<char>>)
    ensures
        match crate::desktop::bundle_depth(names) {
            Some(depth) => 0 < depth <= names.len() && crate::desktop::is_bundle(
                names[depth - 1],
            ) && forall|i: int|
                depth <= i < names.len() ==> !crate::desktop::is_bundle(#[trigger] names[i]),
            None => forall|i: int|
                0 <= i < names.len() ==> !crate::desktop::is_bundle(#[trigger] names[i]),
        },
    decreases names.len(),
{
    if names.len() > 0 && !crate::desktop::is_bundle(names.last()) {
        let shorter = names.drop_last();
        law_innermost_bundle_is_found(shorter);
        assert forall|i: int| 0 <= i < shorter.len() implies #[trigger] names[i] == shorter[i] by {}
    }
}

/// The folder of a path has its names but the last, and what stands in a folder has it for its own.
pub proof fn law_folder_holds_what_stands_in_it(absolute: bool, names: Seq<Seq<char>>, name: Seq<char>)
    ensures
        crate::desktop::folder_of(crate::desktop::inside((absolute, names), seq![name])) == (
            absolute,
            names,
        ),
        crate::desktop::folder_of((absolute, Seq::empty())) == (false, seq!["."@]),
{
    assert((names + seq![name]).drop_last() =~= names);
}

/// What is left without repeats: no two neighbours are alike, every item is there and nothing else,
/// and it begins as before.
pub proof fn law_only_neighbours_are_dropped(routes: Seq<(bool, Seq<Seq<char>>)>)
    ensures
        ({
            let kept = crate::desktop::without_repeats(routes);
            &&& forall|i: int, j: int|
                0 <= i && j == i + 1 && j < kept.len() ==> #[trigger] kept[i] != #[trigger] kept[j]
            &&& forall|route: (bool, Seq<Seq<char>>)|
                #![trigger kept.contains(route)]
                kept.contains(route) <==> routes.contains(route)
            &&& routes.len() > 0 ==> kept.len() > 0 && kept[0] == routes[0] && kept.last()
                == routes.last()
        }),
    decreases routes.len(),
{
    let kept = crate::desktop::without_repeats(routes);
    if routes.len() > 1 {
        let shorter = routes.drop_last();
        let before = crate::desktop::without_repeats(shorter);
        law_only_neighbours_are_dropped(shorter);
        assert(shorter[0] == routes[0]);
        assert forall|route: (bool, Seq<Seq<char>>)|
            #![trigger kept.contains(route)]
            kept.contains(route) <==> routes.contains(route) by {
            if routes.contains(route) {
                let i = choose|i: int| 0 <= i < routes.len() && routes[i] == route;
                if i < shorter.len() {
                    assert(shorter[i] == route);
                    assert(before.contains(route));
                    let k = choose|k: int| 0 <= k < before.len() && before[k] == route;
                    assert(kept[k] == route);
                } else {
                    assert(kept[kept.len() - 1] == route);
                }
            }
            if kept.contains(route) {
                let k = choose|k: int| 0 <= k < kept.len() && kept[k] == route;
                if k < before.len() {
                    assert(before[k] == route);
                    assert(before.contains(route));
                    let i = choose|i: int| 0 <= i < shorter.len() && shorter[i] == route;
                    assert(routes[i] == route);
                } else {
                    assert(routes[routes.len() - 1] == route);
                }
            }
        }
    }
}

/// On Linux and Windows the program is looked for beside the command line, by its platform's name.
pub proof fn law_program_stands_beside_the_command_line(absolute: bool, names: Seq<Seq<char>>)
    requires
        names.len() > 0,
    ensures
        crate::desktop::desktop_routes((absolute, names), DesktopPlatform::Linux) == seq![
            (absolute, names.drop_last().push("altai-desktop"@)),
        ],
        crate::desktop::desktop_routes((absolute, names), DesktopPlatform::Windows) == seq![
            (absolute, names.drop_last().push("altai-desktop.exe"@)),
        ],
{
    assert(names.drop_last() + seq!["altai-desktop"@] =~= names.drop_last().push(
        "altai-desktop"@,
    ));
    assert(names.drop_last() + seq!["altai-desktop.exe"@] =~= names.drop_last().push(
        "altai-desktop.exe"@,
    ));
}

/// On macOS it is looked for in the bundle that the command line stands in, where there is one, then
/// beside the command line, and at last in the installed program's bundle.
pub proof fn law_mac_program_stands_in_a_bundle(absolute: bool, names: Seq<Seq<char>>, depth: int)
    requires
        0 <= depth <= names.len(),
        names.len() > 0,
        depth > 0 ==> crate::desktop::is_bundle(names[depth - 1]),
        forall|i: int| depth <= i < names.len() ==> !crate::desktop::is_bundle(#[trigger] names[i]),
    ensures
        ({
            let own = (
                absolute,
                names.take(depth) + seq!["Contents"@, "MacOS"@, "altai-desktop"@],
            );
            let beside = (absolute, names.drop_last().push("altai-desktop"@));
            let installed = (
                true,
                seq!["Applications"@, "ALTAI.app"@, "Contents"@, "MacOS"@, "altai-desktop"@],
            );
            crate::desktop::mac_routes((absolute, names)) == (if depth > 0 {
                seq![own, beside, installed]
            } else {
                seq![beside, installed]
            })
        }),
        crate::desktop::desktop_routes((absolute, names), DesktopPlatform::MacOs)
            == crate::desktop::without_repeats(crate::desktop::mac_routes((absolute, names))),
{
    law_innermost_bundle_is_found(names);
    let found = crate::desktop::bundle_depth(names);
    if depth > 0 {
        assert(found == Some(depth as nat)) by {
            let d = found->0;
            if d < depth {
                assert(!crate::desktop::is_bundle(names[depth - 1]));
            }
            if d > depth {
                assert(!crate::desktop::is_bundle(names[d - 1]));
            }
        }
    } else {
        if found is Some {
            assert(!crate::desktop::is_bundle(names[found->0 - 1]));
        }
    }
    assert(names.drop_last() + seq!["altai-desktop"@] =~= names.drop_last().push(
        "altai-desktop"@,
    ));
    assert(seq!["Applications"@, "ALTAI.app"@] + seq!["Contents"@, "MacOS"@, "altai-desktop"@]
        =~= seq!["Applications"@, "ALTAI.app"@, "Contents"@, "MacOS"@, "altai-desktop"@]);
    let beside = (absolute, names.drop_last().push("altai-desktop"@));
    let installed = (
        true,
        seq!["Applications"@, "ALTAI.app"@, "Contents"@, "MacOS"@, "altai-desktop"@],
    );
    if depth > 0 {
        let own = (
            absolute,
            names.take(depth) + seq!["Contents"@, "MacOS"@, "altai-desktop"@],
        );
        assert(crate::desktop::mac_routes((absolute, names)) =~= seq![own, beside, installed]);
    } else {
        assert(crate::desktop::mac_routes((absolute, names)) =~= seq![beside, installed]);
    }
}

/// The chosen route is the first that is there, and the first of all where none is.
pub proof fn law_first_route_that_is_there_is_chosen(present: Seq<bool>, route: int, other: int)
    requires
        crate::desktop::is_chosen(present, route),
        0 <= other < present.len(),
    ensures
        present[other] ==> present[route] && route <= other,
        !present[route] ==> route == 0,
{
}

/// What is said of a missing program names every route that was looked at, in order.
pub proof fn law_missing_program_names_the_routes(routes: Seq<(bool, Seq<Seq<char>>)>)
    requires
        routes.len() > 0,
    ensures
        ({
            let texts = Seq::new(routes.len(), |i: int| crate::desktop::shown(routes[i]));
            crate::desktop::missing_words(routes) == "ALTAI Desktop was not found. Checked: "@
                + text::join(texts, ", "@) + ". Reinstall ALTAI with the unified installer."@
        }),
{
    let texts = Seq::new(routes.len(), |i: int| crate::desktop::shown(routes[i]));
    assert(routes.map_values(|route: (bool, Seq<Seq<char>>)| crate::desktop::shown(route))
        =~= texts);
}

} // verus!
