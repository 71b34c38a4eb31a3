//! Filesystem locations as the library sees them: whether a path starts at
//! the root, and its components, written with `/` between them.
//!
//! Two texts that differ only in repeated or trailing separators or in `.`
//! components name the same location.

use vstd::prelude::*;
use vstd::string::StringExecFns;
use crate::text::chars_of;

verus! {

/// Mathematical value of a [`Location`].
pub struct LocationView {
    pub absolute: bool,
    pub parts: Seq<Seq<char>>,
}

/// A path: absolute or relative, and its components in order.
#[derive(Debug, PartialEq, Eq)]
pub struct Location {
    absolute: bool,
    parts: Vec<String>,
}

impl View for Location {
    type V = LocationView;

    closed spec fn view(&self) -> LocationView {
        LocationView { absolute: self.absolute, parts: Seq::new(self.parts@.len(), |i: int| self.parts@[i]@) }
    }
}

/// A component that a path keeps: not empty and not `.`.
pub open spec fn kept(part: Seq<char>) -> bool {
    part.len() > 0 && !(part.len() == 1 && part[0] == '.')
}

/// `part` as a list of components: itself if it is kept, else nothing.
pub open spec fn part_list(part: Seq<char>) -> Seq<Seq<char>> {
    if kept(part) {
        seq![part]
    } else {
        Seq::empty()
    }
}

/// The components of `text` from index `i` on, where `current` holds the
/// characters of the component that `i` stands in.
pub open spec fn parts_from(text: Seq<char>, i: int, current: Seq<char>) -> Seq<Seq<char>>
    decreases text.len() - i,
{
    if i < 0 || i >= text.len() {
        part_list(current)
    } else if text[i] == '/' {
        part_list(current) + parts_from(text, i + 1, Seq::empty())
    } else {
        parts_from(text, i + 1, current.push(text[i]))
    }
}

/// The location that `text` names.
pub open spec fn path_of(text: Seq<char>) -> LocationView {
    LocationView {
        absolute: text.len() > 0 && text[0] == '/',
        parts: parts_from(text, 0, Seq::empty()),
    }
}

/// The components from index `i` on, with `/` between them.
pub open spec fn parts_text(parts: Seq<Seq<char>>, i: int) -> Seq<char>
    decreases parts.len() - i,
{
    if i < 0 || i >= parts.len() {
        Seq::empty()
    } else if i + 1 == parts.len() {
        parts[i]
    } else {
        parts[i] + seq!['/'] + parts_text(parts, i + 1)
    }
}

/// The text of a location: `/` first if it is absolute, then its components.
pub open spec fn text_of(path: LocationView) -> Seq<char> {
    if path.absolute {
        seq!['/'] + parts_text(path.parts, 0)
    } else {
        parts_text(path.parts, 0)
    }
}

/// `rest` taken from `base`: an absolute `rest` replaces `base`, a relative one extends it.
pub open spec fn joined(base: LocationView, rest: LocationView) -> LocationView {
    if rest.absolute {
        rest
    } else {
        LocationView { absolute: base.absolute, parts: base.parts + rest.parts }
    }
}

/// `path` lies at or below `base`: `base`'s components start `path`'s, and
/// either both start at the root or `base` is the empty relative path.
pub open spec fn under(path: LocationView, base: LocationView) -> bool {
    &&& base.absolute ==> path.absolute
    &&& path.absolute && !base.absolute ==> base.parts.len() == 0
    &&& base.parts.len() <= path.parts.len()
    &&& forall|i: int| 0 <= i < base.parts.len() ==> path.parts[i] == #[trigger] base.parts[i]
}

/// What is left of `path` below `base`.
pub open spec fn relative_to(path: LocationView, base: LocationView) -> LocationView {
    LocationView {
        absolute: path.absolute && !base.absolute,
        parts: path.parts.skip(base.parts.len() as int),
    }
}

/// The location one component up; none for the root and for the empty path.
pub open spec fn parent_of(path: LocationView) -> Option<LocationView> {
    if path.parts.len() == 0 {
        None
    } else {
        Some(LocationView { absolute: path.absolute, parts: path.parts.drop_last() })
    }
}

/// Appends copies of `from[start..end]` to `into`.
fn copy_parts(into: &mut Vec<String>, from: &Vec<String>, start: usize, end: usize)
    requires
        start <= end <= from@.len(),
    ensures
        final(into)@.len() == old(into)@.len() + (end - start),
        forall|j: int| 0 <= j < old(into)@.len() ==> final(into)@[j] == old(into)@[j],
        forall|k: int|
            old(into)@.len() <= k < final(into)@.len() ==> (#[trigger] final(into)@[k])@ == from@[start + (k
                - old(into)@.len())]@,
{
    let mut i: usize = start;
    while i < end
        invariant
            start <= i <= end <= from@.len(),
            into@.len() == old(into)@.len() + (i - start),
            forall|j: int| 0 <= j < old(into)@.len() ==> into@[j] == old(into)@[j],
            forall|k: int|
                old(into)@.len() <= k < into@.len() ==> (#[trigger] into@[k])@ == from@[start + (k - old(
                    into,
                )@.len())]@,
        decreases end - i,
    {
        into.push(from[i].clone());
        i += 1;
    }
}

/// The texts of the components, in order.
spec fn parts_view(parts: Seq<String>) -> Seq<Seq<char>> {
    Seq::new(parts.len(), |i: int| parts[i]@)
}

impl Location {
    /// Every component is kept and holds no `/`.
    #[verifier::type_invariant]
    spec fn well_formed(&self) -> bool {
        clean_parts(parts_view(self.parts@))
    }

    /// The empty relative path.
    pub fn new() -> (r: Location)
        ensures
            r@ == (LocationView { absolute: false, parts: Seq::empty() }),
    {
        let r = Location { absolute: false, parts: Vec::new() };
        assert(r@.parts =~= Seq::empty());
        r
    }

    /// The location that `text` names.
    pub fn from_text(text: &str) -> (r: Location)
        ensures
            r@ == path_of(text@),
    {
        let chars = chars_of(text);
        let mut parts: Vec<String> = Vec::new();
        let mut current = String::new();
        let mut single_dot = false;
        let mut empty = true;
        let mut i: usize = 0;
        let ghost mut done: Seq<Seq<char>> = Seq::empty();
        while i < chars.len()
            invariant
                i <= chars@.len(),
                chars@ == text@,
                done == Seq::new(parts@.len(), |j: int| parts@[j]@),
                empty == (current@.len() == 0),
                single_dot == (current@.len() == 1 && current@[0] == '.'),
                path_of(text@).parts == done + parts_from(text@, i as int, current@),
            decreases chars@.len() - i,
        {
            let c = chars[i];
            if c == '/' {
                if !empty && !single_dot {
                    proof {
                        let before = done;
                        done = done.push(current@);
                        assert(before + (part_list(current@) + parts_from(text@, i + 1, Seq::empty())) =~= done
                            + parts_from(text@, i + 1, Seq::empty()));
                    }
                    parts.push(current);
                    assert(done =~= Seq::new(parts@.len(), |j: int| parts@[j]@));
                } else {
                    assert(done + (part_list(current@) + parts_from(text@, i + 1, Seq::empty())) =~= done
                        + parts_from(text@, i + 1, Seq::empty()));
                }
                current = String::new();
                empty = true;
                single_dot = false;
            } else {
                single_dot = empty && c == '.';
                empty = false;
                current.push(c);
            }
            i += 1;
        }
        if !empty && !single_dot {
            proof {
                let before = done;
                done = done.push(current@);
                assert(before + part_list(current@) =~= done);
            }
            parts.push(current);
            assert(done =~= Seq::new(parts@.len(), |j: int| parts@[j]@));
        } else {
            assert(done + part_list(current@) =~= done);
        }
        let absolute = chars.len() > 0 && chars[0] == '/';
        proof {
            lemma_named_location_clean(text@);
            assert(parts_view(parts@) =~= path_of(text@).parts);
        }
        Location { absolute, parts }
    }

    /// Whether the path starts at the root.
    pub fn is_absolute(&self) -> (r: bool)
        ensures
            r == self@.absolute,
    {
        self.absolute
    }

    /// The text of the path. It names the path again.
    pub fn to_text(&self) -> (r: String)
        ensures
            r@ == text_of(self@),
            path_of(r@) == self@,
    {
        proof {
            use_type_invariant(self);
            assert(parts_view(self.parts@) =~= self@.parts);
            lemma_text_names_location(self@);
        }
        let mut out = String::new();
        if self.absolute {
            out.push('/');
        }
        let ghost head = out@;
        let mut i: usize = 0;
        while i < self.parts.len()
            invariant
                i <= self.parts@.len(),
                out@ + parts_text(self@.parts, i as int) == head + parts_text(self@.parts, 0),
            decreases self.parts@.len() - i,
        {
            let ghost before = out@;
            out.append(self.parts[i].as_str());
            if i + 1 < self.parts.len() {
                out.push('/');
            }
            assert(out@ + parts_text(self@.parts, i + 1) =~= before + parts_text(self@.parts, i as int));
            i += 1;
        }
        assert(out@ =~= text_of(self@));
        out
    }

    /// A copy of the path.
    pub fn duplicate(&self) -> (r: Location)
        ensures
            r@ == self@,
    {
        let mut parts: Vec<String> = Vec::new();
        copy_parts(&mut parts, &self.parts, 0, self.parts.len());
        proof {
            use_type_invariant(self);
            assert(parts_view(parts@) =~= parts_view(self.parts@));
        }
        let r = Location { absolute: self.absolute, parts };
        assert(r@.parts =~= self@.parts);
        r
    }

    /// `rest` taken from this path: an absolute `rest` replaces it, a relative one extends it.
    pub fn join(&self, rest: &Location) -> (r: Location)
        ensures
            r@ == joined(self@, rest@),
    {
        if rest.absolute {
            return rest.duplicate();
        }
        let mut parts: Vec<String> = Vec::new();
        copy_parts(&mut parts, &self.parts, 0, self.parts.len());
        copy_parts(&mut parts, &rest.parts, 0, rest.parts.len());
        proof {
            use_type_invariant(self);
            use_type_invariant(rest);
            assert(parts_view(parts@) =~= parts_view(self.parts@) + parts_view(rest.parts@));
        }
        let r = Location { absolute: self.absolute, parts };
        assert(r@.parts =~= self@.parts + rest@.parts);
        r
    }

    /// The path one level deeper: `name` taken from this path.
    pub fn sub(&self, name: &str) -> (r: Location)
        ensures
            r@ == joined(self@, path_of(name@)),
    {
        let rest = Location::from_text(name);
        self.join(&rest)
    }

    /// Whether this path lies at or below `base`.
    pub fn is_under(&self, base: &Location) -> (r: bool)
        ensures
            r == under(self@, base@),
    {
        if base.absolute && !self.absolute {
            return false;
        }
        if self.absolute && !base.absolute && base.parts.len() != 0 {
            return false;
        }
        if base.parts.len() > self.parts.len() {
            return false;
        }
        let mut i: usize = 0;
        while i < base.parts.len()
            invariant
                i <= base.parts@.len() <= self.parts@.len(),
                forall|j: int| 0 <= j < i ==> self@.parts[j] == #[trigger] base@.parts[j],
            decreases base.parts@.len() - i,
        {
            if !(self.parts[i] == base.parts[i]) {
                assert(self@.parts[i as int] != base@.parts[i as int]);
                return false;
            }
            assert(self@.parts[i as int] == base@.parts[i as int]);
            i += 1;
        }
        true
    }

    /// What is left of this path below `base`; none where it does not lie there.
    pub fn strip_prefix(&self, base: &Location) -> (r: Option<Location>)
        ensures
            match r {
                Some(rest) => under(self@, base@) && rest@ == relative_to(self@, base@),
                None => !under(self@, base@),
            },
    {
        if !self.is_under(base) {
            return None;
        }
        let mut parts: Vec<String> = Vec::new();
        copy_parts(&mut parts, &self.parts, base.parts.len(), self.parts.len());
        proof {
            use_type_invariant(self);
            assert(parts_view(parts@) =~= parts_view(self.parts@).skip(base.parts@.len() as int));
        }
        let rest = Location { absolute: self.absolute && !base.absolute, parts };
        assert(rest@.parts =~= relative_to(self@, base@).parts);
        Some(rest)
    }

    /// The path one component up; none for the root and for the empty path.
    pub fn parent(&self) -> (r: Option<Location>)
        ensures
            match r {
                Some(up) => parent_of(self@) == Some(up@),
                None => parent_of(self@) is None,
            },
    {
        if self.parts.len() == 0 {
            return None;
        }
        let mut parts: Vec<String> = Vec::new();
        copy_parts(&mut parts, &self.parts, 0, self.parts.len() - 1);
        proof {
            use_type_invariant(self);
            assert(parts_view(parts@) =~= parts_view(self.parts@).drop_last());
        }
        let up = Location { absolute: self.absolute, parts };
        assert(up@.parts =~= self@.parts.drop_last());
        Some(up)
    }
}

/// Whether every path of the list lies at or below `base`.
pub fn all_under(found: &Vec<Location>, base: &Location) -> (r: bool)
    ensures
        r == forall|i: int| 0 <= i < found@.len() ==> under(#[trigger] found@[i]@, base@),
{
    let mut i: usize = 0;
    while i < found.len()
        invariant
            i <= found@.len(),
            forall|k: int| 0 <= k < i ==> under(#[trigger] found@[k]@, base@),
        decreases found@.len() - i,
    {
        if !found[i].is_under(base) {
            return false;
        }
        i += 1;
    }
    true
}

} // verus!

verus! {

/// Every component is kept and holds no `/`.
pub open spec fn clean_parts(parts: Seq<Seq<char>>) -> bool {
    forall|i: int| 0 <= i < parts.len() ==> kept(#[trigger] parts[i]) && !parts[i].contains('/')
}

/// A location as `from_text` builds it: every component is kept and holds no `/`.
pub open spec fn clean(path: LocationView) -> bool {
    clean_parts(path.parts)
}

/// `word` stands in `text` at `start`.
pub open spec fn stands(text: Seq<char>, start: int, word: Seq<char>) -> bool {
    &&& 0 <= start
    &&& start + word.len() <= text.len()
    &&& forall|i: int| 0 <= i < word.len() ==> text[start + i] == #[trigger] word[i]
}

/// Reading on through characters that are no separator gathers them into the component at hand.
proof fn lemma_gather(text: Seq<char>, start: int, current: Seq<char>, word: Seq<char>, done: int)
    requires
        stands(text, start, word),
        !word.contains('/'),
        0 <= done <= word.len(),
    ensures
        parts_from(text, start + done, current + word.take(done)) == parts_from(
            text,
            start + word.len(),
            current + word,
        ),
    decreases word.len() - done,
{
    if done < word.len() {
        assert(word.contains(word[done]));
        assert((current + word.take(done)).push(text[start + done]) =~= current + word.take(done + 1));
        lemma_gather(text, start, current, word, done + 1);
    } else {
        assert(word.take(done) =~= word);
    }
}

/// The text of clean components, read from where it stands to the end, gives the components back.
proof fn lemma_read_parts(text: Seq<char>, start: int, parts: Seq<Seq<char>>, i: int)
    requires
        0 <= i <= parts.len(),
        stands(text, start, parts_text(parts, i)),
        start + parts_text(parts, i).len() == text.len(),
        clean_parts(parts),
    ensures
        parts_from(text, start, Seq::empty()) == parts.skip(i),
    decreases parts.len() - i,
{
    if i == parts.len() {
        assert(parts.skip(i) =~= Seq::empty());
    } else {
        let word = parts[i];
        let empty = Seq::<char>::empty();
        assert(kept(word) && !word.contains('/'));
        assert(stands(text, start, word)) by {
            assert forall|k: int| 0 <= k < word.len() implies text[start + k] == #[trigger] word[k] by {
                assert(parts_text(parts, i)[k] == word[k]);
            }
        }
        lemma_gather(text, start, empty, word, 0);
        assert(empty + word.take(0) =~= empty);
        assert(empty + word =~= word);
        if i + 1 == parts.len() {
            assert(parts.skip(i) =~= seq![word]);
        } else {
            let rest = parts_text(parts, i + 1);
            let after = start + word.len() + 1;
            assert(parts_text(parts, i)[word.len() as int] == '/');
            assert(text[start + word.len()] == '/');
            assert(stands(text, after, rest)) by {
                assert forall|k: int| 0 <= k < rest.len() implies text[after + k] == #[trigger] rest[k] by {
                    assert(parts_text(parts, i)[word.len() + 1 + k] == rest[k]);
                }
            }
            lemma_read_parts(text, after, parts, i + 1);
            assert(seq![word] + parts.skip(i + 1) =~= parts.skip(i));
        }
    }
}

/// The text of a clean location names that location.
pub proof fn lemma_text_names_location(path: LocationView)
    requires
        clean(path),
    ensures
        path_of(text_of(path)) == path,
{
    let text = text_of(path);
    let body = parts_text(path.parts, 0);
    assert(path.parts.skip(0) =~= path.parts);
    if path.absolute {
        assert(stands(text, 1, body));
        lemma_read_parts(text, 1, path.parts, 0);
        assert(part_list(Seq::<char>::empty()) + path.parts =~= path.parts);
    } else {
        assert(stands(text, 0, body));
        lemma_read_parts(text, 0, path.parts, 0);
        if path.parts.len() > 0 {
            assert(kept(path.parts[0]));
            assert(path.parts[0].contains(path.parts[0][0]));
            assert(body[0] == path.parts[0][0]);
        }
    }
    assert(path_of(text).parts == path.parts);
}

/// Every component that reading yields is kept and holds no `/`.
proof fn lemma_parts_clean(text: Seq<char>, i: int, current: Seq<char>)
    requires
        !current.contains('/'),
    ensures
        clean_parts(parts_from(text, i, current)),
    decreases text.len() - i,
{
    let parts = parts_from(text, i, current);
    if i < 0 || i >= text.len() {
    } else if text[i] == '/' {
        let rest = parts_from(text, i + 1, Seq::empty());
        lemma_parts_clean(text, i + 1, Seq::empty());
        assert forall|k: int| 0 <= k < parts.len() implies kept(#[trigger] parts[k]) && !parts[k].contains('/') by {
            if kept(current) {
                if k > 0 {
                    assert(parts[k] == rest[k - 1]);
                    assert(kept(rest[k - 1]));
                } else {
                    assert(parts[k] == current);
                }
            } else {
                assert(parts[k] == rest[k]);
                assert(kept(rest[k]));
            }
        }
    } else {
        let longer = current.push(text[i]);
        assert(!longer.contains('/')) by {
            if longer.contains('/') {
                let k = choose|k: int| 0 <= k < longer.len() && longer[k] == '/';
                if k < current.len() {
                    assert(current.contains(current[k]));
                }
            }
        }
        lemma_parts_clean(text, i + 1, longer);
    }
}

/// The location that a text names is clean.
pub proof fn lemma_named_location_clean(text: Seq<char>)
    ensures
        clean(path_of(text)),
{
    lemma_parts_clean(text, 0, Seq::empty());
}

} // verus!
