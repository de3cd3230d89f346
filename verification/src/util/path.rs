//! Paths as text. A path is kept in its portable form, with `/` between parts.

use crate::util::text;
use vstd::prelude::*;

verus! {

/// `dir` with `name` below it.
pub open spec fn below(dir: Seq<char>, name: Seq<char>) -> Seq<char> {
    if dir.len() == 0 || dir.last() == '/' {
        dir + name
    } else {
        dir.push('/') + name
    }
}

/// The path of `name` in the directory `dir`.
pub fn join_path(dir: &str, name: &str) -> (r: String)
    ensures
        r@ == below(dir@, name@),
{
    let chars = text::chars_of(dir);
    let mut path = dir.to_owned();
    if chars.len() > 0 && chars[chars.len() - 1] != '/' {
        path.push('/');
    }
    path.append(name);
    path
}

/// The portable form of a path: `/` for every backslash.
pub fn normalize_relative_path(path: &str) -> (r: String)
    ensures
        r@ == text::with_slashes(path@),
{
    text::slashed_text(path)
}

/// `path` without slashes and `.` parts at its end that add nothing.
pub open spec fn settled(path: Seq<char>) -> Seq<char>
    decreases path.len(),
{
    if path.len() > 1 && path.last() == '/' {
        settled(path.drop_last())
    } else if path.len() > 1 && path.last() == '.' && path[path.len() - 2] == '/' {
        settled(path.drop_last())
    } else {
        path
    }
}

/// `path` up to its last slash; nothing where it has none.
pub open spec fn up_to_slash(path: Seq<char>) -> Seq<char>
    decreases path.len(),
{
    if path.len() == 0 || path.last() == '/' {
        path
    } else {
        up_to_slash(path.drop_last())
    }
}

/// The directory in which `path` stands; there is none for the empty path and
/// for the root.
pub open spec fn parent_of(path: Seq<char>) -> Option<Seq<char>> {
    let whole = settled(path);
    if whole.len() == 0 || whole == seq!['/'] {
        None
    } else {
        Some(settled(up_to_slash(whole)))
    }
}

/// The length of `settled` of the first `len` characters.
fn settled_len(chars: &Vec<char>, len: usize) -> (r: usize)
    requires
        len <= chars.len(),
    ensures
        r <= len,
        chars@.take(r as int) == settled(chars@.take(len as int)),
{
    let mut end: usize = len;
    while end > 1 && (chars[end - 1] == '/' || (chars[end - 1] == '.' && chars[end - 2] == '/'))
        invariant
            end <= len <= chars.len(),
            settled(chars@.take(end as int)) == settled(chars@.take(len as int)),
        decreases end,
    {
        assert(chars@.take(end as int).drop_last() =~= chars@.take(end - 1));
        end = end - 1;
    }
    end
}

/// The directory in which `path` stands.
pub fn parent_path(path: &str) -> (r: Option<String>)
    ensures
        match r {
            Some(dir) => parent_of(path@) == Some(dir@),
            None => parent_of(path@) is None,
        },
{
    let chars = text::chars_of(path);
    assert(chars@.take(chars@.len() as int) =~= path@);
    let whole = settled_len(&chars, chars.len());
    if whole == 0 {
        return None;
    }
    if whole == 1 && chars[0] == '/' {
        assert(chars@.take(1) =~= seq!['/']);
        return None;
    }
    assert(chars@.take(whole as int)[0] == chars@[0]);
    let mut end: usize = whole;
    while end > 0 && chars[end - 1] != '/'
        invariant
            end <= whole <= chars.len(),
            up_to_slash(chars@.take(end as int)) == up_to_slash(chars@.take(whole as int)),
        decreases end,
    {
        assert(chars@.take(end as int).drop_last() =~= chars@.take(end - 1));
        end = end - 1;
    }
    let stop = settled_len(&chars, end);
    assert(chars@.subrange(0, stop as int) =~= chars@.take(stop as int));
    Some(text::text_between(&chars, 0, stop))
}

/// What two spellings of one path have in common: `/` for every backslash and
/// ASCII letters in lower case.
pub open spec fn path_key(path: Seq<char>) -> Seq<char> {
    text::lowered(text::with_slashes(path))
}

pub fn normalized_path_key(path: &str) -> (r: String)
    ensures
        r@ == path_key(path@),
{
    let slashed = text::slashed_text(path);
    text::lower_text(slashed.as_str())
}

/// The keys of a list of paths, as a set.
pub open spec fn path_key_set(paths: Seq<String>) -> Set<Seq<char>> {
    paths.map_values(|p: String| path_key(p@)).to_set()
}

fn holds_text(list: &Vec<String>, item: &String) -> (r: bool)
    ensures
        r == text::texts(list@).contains(item@),
{
    let mut i: usize = 0;
    while i < list.len()
        invariant
            i <= list.len(),
            forall|k: int| 0 <= k < i ==> list@[k]@ != item@,
        decreases list.len() - i,
    {
        if list[i] == *item {
            assert(text::texts(list@)[i as int] == item@);
            return true;
        }
        i = i + 1;
    }
    false
}

/// The keys of `paths`, each once, in the order in which they first occur.
pub fn normalized_path_set(paths: &Vec<String>) -> (r: Vec<String>)
    ensures
        text::texts(r@).to_set() == path_key_set(paths@),
        text::texts(r@).no_duplicates(),
{
    let mut keys: Vec<String> = Vec::new();
    let mut i: usize = 0;
    let ghost all = paths@.map_values(|p: String| path_key(p@));
    assert(text::texts(keys@).to_set() =~= all.take(0).to_set());
    while i < paths.len()
        invariant
            i <= paths.len(),
            all == paths@.map_values(|p: String| path_key(p@)),
            text::texts(keys@).to_set() == all.take(i as int).to_set(),
            text::texts(keys@).no_duplicates(),
        decreases paths.len() - i,
    {
        let key = normalized_path_key(paths[i].as_str());
        let ghost before = text::texts(keys@);
        let ghost item = key@;
        assert(all.take(i + 1) =~= all.take(i as int).push(item));
        proof {
            lemma_to_set_push(all.take(i as int), item);
            lemma_to_set_push(before, item);
        }
        if !holds_text(&keys, &key) {
            keys.push(key);
            assert(text::texts(keys@) =~= before.push(item));
        } else {
            assert(before.to_set().contains(item));
            assert(before.to_set().insert(item) =~= before.to_set());
        }
        i = i + 1;
    }
    assert(all.take(all.len() as int) =~= all);
    keys
}

proof fn lemma_to_set_push(list: Seq<Seq<char>>, item: Seq<char>)
    ensures
        list.push(item).to_set() == list.to_set().insert(item),
{
    let pushed = list.push(item);
    assert forall|x: Seq<char>| pushed.to_set().contains(x) implies list.to_set().insert(
        item,
    ).contains(x) by {
        let k = choose|k: int| 0 <= k < pushed.len() && pushed[k] == x;
        if k < list.len() {
            assert(list[k] == x);
        }
    }
    assert forall|x: Seq<char>| list.to_set().insert(item).contains(x) implies pushed.to_set().contains(
    x) by {
        if x == item {
            assert(pushed[list.len() as int] == x);
        } else {
            let k = choose|k: int| 0 <= k < list.len() && list[k] == x;
            assert(pushed[k] == x);
        }
    }
    assert(pushed.to_set() =~= list.to_set().insert(item));
}

/// Whether every text of `part` is in `whole`.
fn all_in(part: &Vec<String>, whole: &Vec<String>) -> (r: bool)
    ensures
        r == text::texts(part@).to_set().subset_of(text::texts(whole@).to_set()),
{
    let mut i: usize = 0;
    while i < part.len()
        invariant
            i <= part.len(),
            forall|k: int| 0 <= k < i ==> text::texts(whole@).contains(#[trigger] part@[k]@),
        decreases part.len() - i,
    {
        if !holds_text(whole, &part[i]) {
            assert(text::texts(part@)[i as int] == part@[i as int]@);
            assert(text::texts(part@).to_set().contains(part@[i as int]@));
            return false;
        }
        i = i + 1;
    }
    assert forall|x: Seq<char>| text::texts(part@).to_set().contains(x) implies text::texts(
        whole@,
    ).to_set().contains(x) by {
        let k = choose|k: int| 0 <= k < text::texts(part@).len() && text::texts(part@)[k] == x;
        assert(part@[k]@ == x);
    }
    true
}

/// Whether two lists name the same paths, whatever the order and the spelling.
pub fn same_paths(left: &Vec<String>, right: &Vec<String>) -> (r: bool)
    ensures
        r == (path_key_set(left@) == path_key_set(right@)),
{
    let left_keys = normalized_path_set(left);
    let right_keys = normalized_path_set(right);
    let r = all_in(&left_keys, &right_keys) && all_in(&right_keys, &left_keys);
    assert(r ==> path_key_set(left@) =~= path_key_set(right@));
    r
}

/// The key of a key is the key itself.
pub proof fn path_key_is_settled(path: Seq<char>)
    ensures
        path_key(path_key(path)) == path_key(path),
{
    let key = path_key(path);
    assert forall|i: int| 0 <= i < path.len() implies #[trigger] path_key(key)[i] == key[i] by {
        let c = path[i];
        assert(key[i] == text::ascii_lower(text::slashed(c)));
        assert(path_key(key)[i] == text::ascii_lower(text::slashed(key[i])));
    }
    assert(path_key(key) =~= key);
}

/// Two spellings of a path that differ in slashes only have one key.
pub proof fn slashes_do_not_matter(path: Seq<char>)
    ensures
        path_key(text::with_slashes(path)) == path_key(path),
{
    assert(text::with_slashes(text::with_slashes(path)) =~= text::with_slashes(path));
}

/// A file stands in the directory that it was put below.
pub proof fn parent_undoes_below(dir: Seq<char>, name: Seq<char>)
    requires
        dir.len() > 0,
        dir.last() != '/',
        dir.last() == '.' ==> dir.len() == 1 || dir[dir.len() - 2] != '/',
        name.len() > 0,
        name != seq!['.'],
        forall|i: int| 0 <= i < name.len() ==> #[trigger] name[i] != '/',
    ensures
        parent_of(below(dir, name)) == Some(dir),
        below(dir, name) == dir + seq!['/'] + name,
{
    let whole = below(dir, name);
    let n = dir.len() as int;
    assert(whole =~= dir + seq!['/'] + name);
    assert(whole.last() == name.last());
    assert(name.last() == name[name.len() - 1]);
    if whole.last() == '.' && whole[whole.len() - 2] == '/' {
        if name.len() > 1 {
            assert(whole[whole.len() - 2] == name[name.len() - 2]);
        } else {
            assert(name =~= seq!['.']);
        }
    }
    assert(settled(whole) == whole);
    assert(whole != seq!['/']) by {
        assert(whole.len() > 1);
    }
    lemma_up_to_slash(whole, n + 1);
    assert(whole.take(n + 1) =~= dir.push('/'));
    assert(dir.push('/').drop_last() =~= dir);
    assert(settled(dir) == dir);
    assert(settled(dir.push('/')) == dir);
}

proof fn lemma_up_to_slash(path: Seq<char>, at: int)
    requires
        0 < at <= path.len(),
        path[at - 1] == '/',
        forall|i: int| at <= i < path.len() ==> #[trigger] path[i] != '/',
    ensures
        up_to_slash(path) == path.take(at),
    decreases path.len(),
{
    if path.len() == at {
        assert(path.take(at) =~= path);
    } else {
        assert(path.last() == path[path.len() - 1]);
        lemma_up_to_slash(path.drop_last(), at);
        assert(path.drop_last().take(at) =~= path.take(at));
    }
}

/// Two spellings of a path have one key exactly where they differ in nothing but the kind
/// of slash and the case of the letters `A` to `Z`.
pub proof fn path_key_forgets_spelling_only(a: Seq<char>, b: Seq<char>)
    ensures
        path_key(a) == path_key(b) <==> a.len() == b.len() && forall|i: int|
            0 <= i < a.len() ==> text::ascii_lower(text::slashed(#[trigger] a[i]))
                == text::ascii_lower(text::slashed(b[i])),
{
    let ka = path_key(a);
    let kb = path_key(b);
    if ka == kb {
        assert(ka.len() == a.len() && kb.len() == b.len());
        assert forall|i: int| 0 <= i < a.len() implies text::ascii_lower(
            text::slashed(#[trigger] a[i]),
        ) == text::ascii_lower(text::slashed(b[i])) by {
            assert(ka[i] == kb[i]);
        }
    }
    if a.len() == b.len() && forall|i: int|
        0 <= i < a.len() ==> text::ascii_lower(text::slashed(#[trigger] a[i]))
            == text::ascii_lower(text::slashed(b[i])) {
        assert(ka =~= kb);
    }
}

/// A list of paths has the key of every path in it and no other.
pub proof fn key_set_holds_every_path(paths: Seq<String>, key: Seq<char>)
    ensures
        path_key_set(paths).contains(key) <==> exists|i: int|
            0 <= i < paths.len() && path_key((#[trigger] paths[i])@) == key,
{
    let keys = paths.map_values(|p: String| path_key(p@));
    if path_key_set(paths).contains(key) {
        let k = choose|k: int| 0 <= k < keys.len() && keys[k] == key;
        assert(path_key(paths[k]@) == key);
    }
    if exists|i: int| 0 <= i < paths.len() && path_key((#[trigger] paths[i])@) == key {
        let i = choose|i: int| 0 <= i < paths.len() && path_key((#[trigger] paths[i])@) == key;
        assert(keys[i] == key);
    }
}

} // verus!
