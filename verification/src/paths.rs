//! Unix paths as component sequences: the reading of a path that file
//! permissions are decided on.

use vstd::prelude::*;
use vstd::string::*;

use crate::text::{
    ends_with, lemma_split_concat, lemma_split_first, lemma_split_nonempty, same, split, split_text,
    starts_with, texts,
};

verus! {

/// A part of a path that names something: not empty and not `.`.
pub open spec fn is_named(part: Seq<char>) -> bool {
    part.len() > 0 && part != "."@
}

/// Whether a path begins at the root.
pub open spec fn is_absolute(path: Seq<char>) -> bool {
    "/"@.is_prefix_of(path)
}

/// The components of a path: the root, if the path begins there, or a leading
/// `.` of a relative path; then every part between slashes that names
/// something. Repeated and trailing slashes and inner `.` parts vanish.
pub open spec fn components(path: Seq<char>) -> Seq<Seq<char>> {
    let parts = split(path, '/');
    let lead = if is_absolute(path) {
        seq!["/"@]
    } else if parts[0] == "."@ {
        seq!["."@]
    } else {
        Seq::empty()
    };
    lead + parts.filter(|p: Seq<char>| is_named(p))
}

/// Whether `path` is `base` or lies below it, component by component.
pub open spec fn is_under(path: Seq<char>, base: Seq<char>) -> bool {
    components(base).is_prefix_of(components(path))
}

/// Whether a path has a `..` component.
pub open spec fn has_parent_component(path: Seq<char>) -> bool {
    components(path).contains(".."@)
}

/// `tail` taken relative to `base`: an absolute `tail` replaces `base`.
pub open spec fn join(base: Seq<char>, tail: Seq<char>) -> Seq<char> {
    if is_absolute(tail) {
        tail
    } else if base.len() == 0 || "/"@.is_suffix_of(base) {
        base + tail
    } else {
        base + "/"@ + tail
    }
}

/// A path without the slashes that it begins with.
pub open spec fn unrooted(path: Seq<char>) -> Seq<char>
    decreases path.len(),
{
    if path.len() > 0 && path[0] == '/' {
        unrooted(path.skip(1))
    } else {
        path
    }
}

/// `tail` placed below `base`: unlike with [`join`], slashes that `tail`
/// begins with do not lead back to the root.
pub open spec fn below(base: Seq<char>, tail: Seq<char>) -> Seq<char> {
    join(base, unrooted(tail))
}

/// The components of a path.
pub fn components_of(path: &str) -> (r: Vec<String>)
    ensures
        texts(r@) == components(path@),
{
    let parts = split_text(path, '/');
    let ghost named = |p: Seq<char>| is_named(p);
    proof {
        lemma_split_nonempty(path@, '/');
        assert(texts(parts@)[0] == parts@[0]@);
    }
    let mut r: Vec<String> = Vec::new();
    if starts_with(path, "/") {
        r.push("/".to_owned());
        assert(texts(r@) =~= seq!["/"@]);
    } else if same(parts[0].as_str(), ".") {
        r.push(".".to_owned());
        assert(texts(r@) =~= seq!["."@]);
    } else {
        assert(texts(r@) =~= Seq::empty());
    }
    let ghost lead = texts(r@);
    assert(texts(parts@).take(0).filter(named) =~= Seq::empty()) by {
        reveal(Seq::filter);
    }
    assert(texts(r@) =~= lead + texts(parts@).take(0).filter(named));
    for i in 0..parts.len()
        invariant
            named == |p: Seq<char>| is_named(p),
            texts(r@) == lead + texts(parts@).take(i as int).filter(named),
    {
        let part = parts[i].clone();
        let ghost all = texts(parts@);
        let ghost before = r@;
        proof {
            reveal(Seq::filter);
            assert(all.take(i + 1).drop_last() =~= all.take(i as int));
            assert(all.take(i + 1).last() == part@);
        }
        if !part.as_str().is_empty() && !same(part.as_str(), ".") {
            r.push(part);
            assert(texts(r@) =~= texts(before).push(part@));
        }
        assert(texts(r@) =~= lead + all.take(i + 1).filter(named));
    }
    assert(texts(parts@).take(parts@.len() as int) =~= texts(parts@));
    r
}

/// Whether one component list begins with another.
fn has_prefix(list: &Vec<String>, prefix: &Vec<String>) -> (r: bool)
    ensures
        r == texts(prefix@).is_prefix_of(texts(list@)),
{
    if list.len() < prefix.len() {
        return false;
    }
    for i in 0..prefix.len()
        invariant
            prefix.len() <= list.len(),
            forall|j: int| 0 <= j < i ==> texts(prefix@)[j] == #[trigger] texts(list@)[j],
    {
        if !same(list[i].as_str(), prefix[i].as_str()) {
            proof {
                assert(texts(list@)[i as int] != texts(prefix@)[i as int]);
                assert(texts(list@).subrange(0, prefix@.len() as int)[i as int] == texts(
                    list@,
                )[i as int]);
            }
            return false;
        }
    }
    assert(texts(prefix@) =~= texts(list@).subrange(0, prefix@.len() as int));
    true
}

/// Whether `path` is `base` or lies below it.
pub fn lies_under(path: &str, base: &str) -> (r: bool)
    ensures
        r == is_under(path@, base@),
{
    has_prefix(&components_of(path), &components_of(base))
}

/// Whether `path` has a `..` component.
pub fn climbs(path: &str) -> (r: bool)
    ensures
        r == has_parent_component(path@),
{
    crate::text::contains(&components_of(path), "..")
}

/// `tail` taken relative to `base`.
pub fn join_paths(base: &str, tail: &str) -> (r: String)
    ensures
        r@ == join(base@, tail@),
{
    if starts_with(tail, "/") {
        return tail.to_owned();
    }
    let mut r = base.to_owned();
    if !(base.is_empty() || ends_with(base, "/")) {
        r.append("/");
    }
    r.append(tail);
    r
}

/// `tail` placed below `base`.
pub fn place_below(base: &str, tail: &str) -> (r: String)
    ensures
        r@ == below(base@, tail@),
{
    let n: usize = tail.unicode_len();
    let mut at: usize = 0;
    assert(tail@.skip(0) =~= tail@);
    while at < n && tail.get_char(at) == '/'
        invariant
            at <= n,
            n == tail@.len(),
            unrooted(tail@) == unrooted(tail@.skip(at as int)),
        decreases n - at,
    {
        assert(tail@.skip(at as int).skip(1) =~= tail@.skip(at + 1));
        at = at + 1;
    }
    let rest = tail.substring_char(at, n);
    assert(rest@ =~= tail@.skip(at as int));
    join_paths(base, rest)
}

proof fn lemma_empty_split_names_nothing()
    ensures
        split(Seq::<char>::empty(), '/') == seq![Seq::<char>::empty()],
        split(Seq::<char>::empty(), '/').filter(|p: Seq<char>| is_named(p)) == Seq::<
            Seq<char>,
        >::empty(),
{
    let named = |p: Seq<char>| is_named(p);
    let parts = split(Seq::<char>::empty(), '/');
    reveal(Seq::filter);
    assert(parts =~= seq![Seq::<char>::empty()]);
    assert(parts.drop_last() =~= Seq::<Seq<char>>::empty());
    assert(parts.drop_last().filter(named) =~= Seq::<Seq<char>>::empty());
    assert(!is_named(parts.last()));
}

/// A path joined below a base lies under the base, unless it is absolute
/// itself.
pub proof fn joined_path_is_under_base(base: Seq<char>, tail: Seq<char>)
    requires
        !is_absolute(tail),
    ensures
        is_under(join(base, tail), base),
{
    let named = |p: Seq<char>| is_named(p);
    reveal_strlit("/");
    reveal_strlit(".");
    assert("/"@ =~= seq!['/']);
    assert("."@ =~= seq!['.']);
    let path = join(base, tail);
    lemma_empty_split_names_nothing();
    if base.len() == 0 {
        assert(base =~= Seq::empty());
        assert(components(base) =~= Seq::empty());
        assert(components(path).subrange(0, 0) =~= Seq::empty());
    } else {
        let stem = if "/"@.is_suffix_of(base) {
            base.drop_last()
        } else {
            base
        };
        if "/"@.is_suffix_of(base) {
            assert(base.subrange(base.len() - 1, base.len() as int)[0] == '/');
            assert(base =~= stem + seq!['/'] + Seq::empty());
            lemma_split_concat(stem, Seq::empty(), '/');
            assert(path =~= stem + seq!['/'] + tail);
            Seq::filter_distributes_over_add(
                split(stem, '/'),
                split(Seq::<char>::empty(), '/'),
                named,
            );
            assert(split(base, '/').filter(named) =~= split(stem, '/').filter(named));
        } else {
            assert(path =~= stem + seq!['/'] + tail);
        }
        lemma_split_concat(stem, tail, '/');
        Seq::filter_distributes_over_add(split(stem, '/'), split(tail, '/'), named);
        lemma_split_first(stem, '/');
        lemma_split_first(base, '/');
        assert(split(path, '/')[0] == split(stem, '/')[0]);
        assert(is_absolute(base) == (base[0] == '/')) by {
            if is_absolute(base) {
                assert(base.subrange(0, 1)[0] == '/');
            } else if base[0] == '/' {
                assert(base.subrange(0, 1) =~= "/"@);
            }
        }
        assert(is_absolute(path) == (path[0] == '/')) by {
            if is_absolute(path) {
                assert(path.subrange(0, 1)[0] == '/');
            } else if path[0] == '/' {
                assert(path.subrange(0, 1) =~= "/"@);
            }
        }
        assert(path[0] == base[0]);
        assert(split(base, '/')[0] == split(stem, '/')[0]);
        let shared = components(base);
        assert(components(path).subrange(0, shared.len() as int) =~= shared);
    }
}

proof fn lemma_unrooted(path: Seq<char>)
    ensures
        !is_absolute(unrooted(path)),
    decreases path.len(),
{
    if path.len() > 0 && path[0] == '/' {
        lemma_unrooted(path.skip(1));
    } else {
        reveal_strlit("/");
        if is_absolute(path) {
            assert(path.subrange(0, 1)[0] == '/');
        }
    }
}

/// Whatever is placed below a base lies under the base.
pub proof fn placed_path_is_under_base(base: Seq<char>, tail: Seq<char>)
    ensures
        is_under(below(base, tail), base),
{
    lemma_unrooted(tail);
    joined_path_is_under_base(base, unrooted(tail));
}

/// Lying under is transitive.
pub proof fn is_under_is_transitive(path: Seq<char>, mid: Seq<char>, base: Seq<char>)
    requires
        is_under(path, mid),
        is_under(mid, base),
    ensures
        is_under(path, base),
{
    let n = components(base).len() as int;
    let m = components(mid).len() as int;
    assert(components(path).subrange(0, m).subrange(0, n) =~= components(path).subrange(0, n));
}

/// Joining a relative path writes it after the base, with exactly one slash
/// between them; an absolute one stands for itself.
pub proof fn joining_writes_one_slash(base: Seq<char>, tail: Seq<char>)
    ensures
        tail.len() > 0 && tail[0] == '/' ==> join(base, tail) == tail,
        (tail.len() == 0 || tail[0] != '/') && base.len() > 0 && base.last() != '/' ==> join(
            base,
            tail,
        ) == base + seq!['/'] + tail,
        (tail.len() == 0 || tail[0] != '/') && base.len() > 0 && base.last() == '/' ==> join(
            base,
            tail,
        ) == base + tail,
{
    reveal_strlit("/");
    assert("/"@ =~= seq!['/']);
    if tail.len() > 0 {
        if tail[0] == '/' {
            assert(tail.subrange(0, 1) =~= "/"@);
        } else if is_absolute(tail) {
            assert(tail.subrange(0, 1)[0] == '/');
        }
    }
    if base.len() > 0 {
        let n = base.len() as int;
        if base.last() == '/' {
            assert(base.subrange(n - 1, n) =~= "/"@);
        } else if "/"@.is_suffix_of(base) {
            assert(base.subrange(n - 1, n)[0] == '/');
        }
    }
}

/// Every path lies under itself.
pub proof fn is_under_is_reflexive(path: Seq<char>)
    ensures
        is_under(path, path),
{
    assert(components(path).subrange(0, components(path).len() as int) =~= components(path));
}

/// A path climbs exactly where one of the parts between its slashes is `..`.
pub proof fn climbing_is_a_part_of_two_dots(path: Seq<char>)
    ensures
        has_parent_component(path) == split(path, '/').contains(".."@),
{
    let named = |p: Seq<char>| is_named(p);
    let parts = split(path, '/');
    let kept = parts.filter(named);
    reveal_strlit("..");
    reveal_strlit(".");
    reveal_strlit("/");
    assert(is_named(".."@));
    let all = components(path);
    if has_parent_component(path) {
        let i = choose|i: int| 0 <= i < all.len() && all[i] == ".."@;
        let lead = all.len() - kept.len();
        assert(i >= lead);
        assert(kept[i - lead] == ".."@);
            assert(kept.contains(".."@));
        lemma_filtered_was_there(parts, named, ".."@);
    }
    if parts.contains(".."@) {
        lemma_there_is_filtered(parts, named, ".."@);
        let k = choose|k: int| 0 <= k < kept.len() && kept[k] == ".."@;
        assert(all[all.len() - kept.len() + k] == ".."@);
    }
}

proof fn lemma_filtered_was_there(
    parts: Seq<Seq<char>>,
    named: spec_fn(Seq<char>) -> bool,
    x: Seq<char>,
)
    requires
        parts.filter(named).contains(x),
    ensures
        parts.contains(x),
    decreases parts.len(),
{
    reveal(Seq::filter);
    if parts.len() > 0 {
        let rest = parts.drop_last();
        let kept = parts.filter(named);
        let k = choose|k: int| 0 <= k < kept.len() && kept[k] == x;
        if k < rest.filter(named).len() {
            assert(rest.filter(named)[k] == x);
            lemma_filtered_was_there(rest, named, x);
            let i = choose|i: int| 0 <= i < rest.len() && rest[i] == x;
            assert(parts[i] == x);
        } else {
            assert(parts[parts.len() - 1] == x);
        }
    }
}

proof fn lemma_there_is_filtered(
    parts: Seq<Seq<char>>,
    named: spec_fn(Seq<char>) -> bool,
    x: Seq<char>,
)
    requires
        parts.contains(x),
        named(x),
    ensures
        parts.filter(named).contains(x),
    decreases parts.len(),
{
    reveal(Seq::filter);
    if parts.len() > 0 {
        let rest = parts.drop_last();
        let kept = parts.filter(named);
        if parts.last() == x {
            assert(kept.last() == x);
        } else {
            let i = choose|i: int| 0 <= i < parts.len() && parts[i] == x;
            assert(rest[i] == x);
            lemma_there_is_filtered(rest, named, x);
            let k = choose|k: int| 0 <= k < rest.filter(named).len() && rest.filter(named)[k] == x;
            assert(kept[k] == x);
        }
    }
}

/// A longer name is another name: `/a/bc` does not lie under `/a/b`.
pub proof fn siblings_do_not_lie_under_each_other(
    dir: Seq<char>,
    name: Seq<char>,
    more: Seq<char>,
)
    requires
        dir.len() > 0,
        dir[0] == '/',
        name.len() > 0,
        name[0] != '.',
        !name.contains('/'),
        more.len() > 0,
        !more.contains('/'),
    ensures
        !is_under(dir + seq!['/'] + name + more, dir + seq!['/'] + name),
{
    let named = |p: Seq<char>| is_named(p);
    reveal_strlit("/");
    reveal_strlit(".");
    assert("/"@ =~= seq!['/']);
    assert("."@ =~= seq!['.']);
    let base = dir + seq!['/'] + name;
    let longer = name + more;
    let path = dir + seq!['/'] + name + more;
    assert(path =~= dir + seq!['/'] + longer);
    assert(!longer.contains('/')) by {
        if longer.contains('/') {
            let i = choose|i: int| 0 <= i < longer.len() && longer[i] == '/';
            if i < name.len() {
                assert(name[i] == '/');
            } else {
                assert(more[i - name.len()] == '/');
            }
        }
    }
    lemma_split_concat(dir, name, '/');
    lemma_split_concat(dir, longer, '/');
    crate::text::lemma_split_whole(name, '/');
    crate::text::lemma_split_whole(longer, '/');
    Seq::filter_distributes_over_add(split(dir, '/'), seq![name], named);
    Seq::filter_distributes_over_add(split(dir, '/'), seq![longer], named);
    lemma_single_kept(name, named);
    assert(longer[0] == name[0]);
    lemma_single_kept(longer, named);
    assert(base.subrange(0, 1) =~= "/"@);
    assert(path.subrange(0, 1) =~= "/"@);
    let n = components(base).len() as int;
    assert(components(base)[n - 1] == name);
    assert(components(path)[n - 1] == longer);
    if is_under(path, base) {
        assert(components(path).subrange(0, n)[n - 1] == components(base)[n - 1]);
        assert(longer.len() == name.len());
    }
}

proof fn lemma_single_kept(x: Seq<char>, named: spec_fn(Seq<char>) -> bool)
    requires
        named(x),
    ensures
        seq![x].filter(named) == seq![x],
{
    reveal(Seq::filter);
    assert(seq![x].drop_last() =~= Seq::<Seq<char>>::empty());
    assert(seq![x].drop_last().filter(named) =~= Seq::<Seq<char>>::empty());
    assert(seq![x].filter(named) =~= seq![x]);
}

/// A relative path never lies under an absolute one.
pub proof fn relative_paths_lie_under_no_absolute_one(path: Seq<char>, base: Seq<char>)
    requires
        path.len() == 0 || path[0] != '/',
        base.len() > 0,
        base[0] == '/',
    ensures
        !is_under(path, base),
{
    reveal_strlit("/");
    reveal_strlit(".");
    assert("/"@ =~= seq!['/']);
    assert("."@ =~= seq!['.']);
    assert(base.subrange(0, 1) =~= "/"@);
    assert(components(base)[0] == "/"@);
    if is_under(path, base) {
        let all = components(path);
        let n = components(base).len() as int;
        assert(all.subrange(0, n)[0] == "/"@);
        assert(all[0] == "/"@);
        if is_absolute(path) {
            assert(path.subrange(0, 1)[0] == '/');
        }
        let named = |p: Seq<char>| is_named(p);
        let parts = split(path, '/');
        if parts[0] != "."@ {
            assert(parts.filter(named)[0] == "/"@);
            assert(parts.filter(named).contains("/"@));
            lemma_filtered_was_there(parts, named, "/"@);
            crate::text::parts_make_up_the_text(path, '/');
            let i = choose|i: int| 0 <= i < parts.len() && parts[i] == "/"@;
            assert(!parts[i].contains('/'));
            assert(parts[i][0] == '/');
        } else {
            assert(all[0] == "."@);
            assert("."@[0] != "/"@[0]);
        }
    }
}

/// Doubled slashes and inner dots do not matter.
pub proof fn doubled_slashes_and_inner_dots_vanish(head: Seq<char>, tail: Seq<char>)
    requires
        head.len() > 0,
    ensures
        components(head + seq!['/'] + seq!['/'] + tail) == components(head + seq!['/'] + tail),
        components(head + seq!['/'] + seq!['.'] + seq!['/'] + tail) == components(
            head + seq!['/'] + tail,
        ),
{
    let named = |p: Seq<char>| is_named(p);
    reveal_strlit("/");
    reveal_strlit(".");
    assert("/"@ =~= seq!['/']);
    assert("."@ =~= seq!['.']);
    let plain = head + seq!['/'] + tail;
    let none = Seq::<char>::empty();
    let doubled = head + seq!['/'] + seq!['/'] + tail;
    let dotted = head + seq!['/'] + seq!['.'] + seq!['/'] + tail;
    let a = head + seq!['/'] + none;
    assert(doubled =~= a + seq!['/'] + tail);
    let b = head + seq!['/'] + seq!['.'];
    assert(dotted =~= b + seq!['/'] + tail);
    lemma_split_concat(head, tail, '/');
    lemma_split_concat(head, none, '/');
    lemma_split_concat(a, tail, '/');
    lemma_split_concat(head, seq!['.'], '/');
    lemma_split_concat(b, tail, '/');
    lemma_empty_split_names_nothing();
    assert(!seq!['.'].contains('/'));
    crate::text::lemma_split_whole(seq!['.'], '/');
    assert(seq![seq!['.']].filter(named) =~= Seq::<Seq<char>>::empty()) by {
        reveal(Seq::filter);
        assert(seq![seq!['.']].drop_last() =~= Seq::<Seq<char>>::empty());
        assert(seq![seq!['.']].drop_last().filter(named) =~= Seq::<Seq<char>>::empty());
        assert(!is_named(seq!['.']));
    }
    let h = split(head, '/');
    let t = split(tail, '/');
    Seq::filter_distributes_over_add(h, t, named);
    Seq::filter_distributes_over_add(h, split(none, '/'), named);
    Seq::filter_distributes_over_add(h + split(none, '/'), t, named);
    Seq::filter_distributes_over_add(h, seq![seq!['.']], named);
    Seq::filter_distributes_over_add(h + seq![seq!['.']], t, named);
    lemma_split_nonempty(head, '/');
    assert(split(plain, '/')[0] == h[0]);
    assert(split(doubled, '/')[0] == h[0]);
    assert(split(dotted, '/')[0] == h[0]);
    assert(is_absolute(plain) == (head[0] == '/')) by {
        lemma_absolute(plain);
        assert(plain[0] == head[0]);
    }
    assert(is_absolute(doubled) == (head[0] == '/')) by {
        lemma_absolute(doubled);
        assert(doubled[0] == head[0]);
    }
    assert(is_absolute(dotted) == (head[0] == '/')) by {
        lemma_absolute(dotted);
        assert(dotted[0] == head[0]);
    }
    assert(components(doubled) =~= components(plain));
    assert(components(dotted) =~= components(plain));
}

proof fn lemma_absolute(path: Seq<char>)
    requires
        path.len() > 0,
    ensures
        is_absolute(path) == (path[0] == '/'),
{
    reveal_strlit("/");
    assert("/"@ =~= seq!['/']);
    if path[0] == '/' {
        assert(path.subrange(0, 1) =~= "/"@);
    } else if is_absolute(path) {
        assert(path.subrange(0, 1)[0] == '/');
    }
}

/// Where a path is placed does not depend on the slashes that it begins with, and
/// without them it is placed where joining puts it.
pub proof fn placing_ignores_leading_slashes(base: Seq<char>, tail: Seq<char>)
    ensures
        below(base, seq!['/'] + tail) == below(base, tail),
        tail.len() == 0 || tail[0] != '/' ==> below(base, tail) == join(base, tail),
{
    let longer = seq!['/'] + tail;
    assert(longer[0] == '/');
    assert(longer.skip(1) =~= tail);
}

}
