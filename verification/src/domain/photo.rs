//! Value objects of a photo: rotation, star rating and tags.
use vstd::prelude::*;
use super::error::DomainError;
use crate::text::{chars_of, join_chars, join_with, lowercase, split_chars, split_on, string_of, to_lowercase, trim, trim_chars};

verus! {

/// The rotations a photo may have.
pub open spec fn is_right_angle(d: int) -> bool {
    d == 0 || d == 90 || d == 180 || d == 270
}

/// Rotation of a photo, in clockwise degrees; always 0, 90, 180 or 270.
#[derive(Debug, Clone, Copy, PartialEq, Eq)]
pub struct Rotation(i32);

impl View for Rotation {
    type V = int;

    /// The rotation in degrees (the invariant keeps it a right angle).
    closed spec fn view(&self) -> int {
        if is_right_angle(self.0 as int) {
            self.0 as int
        } else {
            0
        }
    }
}

/// The rotation that EXIF `Orientation` value `o` stands for: 6 is 90,
/// 3 is 180, 8 is 270, anything else (1 = normal included) is 0.
pub open spec fn orientation_degrees(o: int) -> int {
    if o == 6 {
        90
    } else if o == 3 {
        180
    } else if o == 8 {
        270
    } else {
        0
    }
}

/// The EXIF `Orientation` value for a rotation: 90 is 6, 180 is 3, 270 is 8,
/// anything else is 1 (normal).
pub open spec fn degrees_orientation(d: int) -> int {
    if d == 90 {
        6
    } else if d == 180 {
        3
    } else if d == 270 {
        8
    } else {
        1
    }
}

/// Clockwise rotation that takes `from` to `to`.
pub open spec fn clockwise_delta(to: int, from: int) -> int {
    (to - from + 360) % 360
}

impl Rotation {
    #[verifier::type_invariant]
    spec fn inv(self) -> bool {
        is_right_angle(self.0 as int)
    }

    /// Every rotation is a right angle.
    pub proof fn lemma_valid(self)
        ensures
            is_right_angle(self@),
    {
    }

    /// No rotation (0 degrees).
    pub fn none() -> (r: Rotation)
        ensures
            r@ == 0,
    {
        Rotation(0)
    }

    /// The rotation of `degrees`, or `InvalidRotation` unless it is 0, 90,
    /// 180 or 270.
    pub fn new(degrees: i32) -> (r: Result<Rotation, DomainError>)
        ensures
            is_right_angle(degrees as int) <==> r is Ok,
            r matches Ok(rot) ==> rot@ == degrees,
            r matches Err(e) ==> e == DomainError::InvalidRotation(degrees),
    {
        if degrees == 0 || degrees == 90 || degrees == 180 || degrees == 270 {
            Ok(Rotation(degrees))
        } else {
            Err(DomainError::InvalidRotation(degrees))
        }
    }

    /// Degrees as an integer.
    pub fn degrees(self) -> (d: i32)
        ensures
            d == self@,
            is_right_angle(d as int),
    {
        proof {
            use_type_invariant(self);
        }
        self.0
    }

    /// Clockwise rotation from `from` to `self`: `(self - from + 360) % 360`,
    /// itself always a valid rotation.
    pub fn delta_from(self, from: Rotation) -> (r: Rotation)
        ensures
            r@ == clockwise_delta(self@, from@),
    {
        proof {
            use_type_invariant(self);
            use_type_invariant(from);
        }
        Rotation((self.0 - from.0 + 360) % 360)
    }

    /// The rotation for an EXIF `Orientation` value.
    pub fn from_exif_orientation(orientation: i32) -> (r: Rotation)
        ensures
            r@ == orientation_degrees(orientation as int),
    {
        match orientation {
            6 => Rotation(90),
            3 => Rotation(180),
            8 => Rotation(270),
            _ => Rotation(0),
        }
    }

    /// The EXIF `Orientation` value for this rotation.
    pub fn to_exif_orientation(self) -> (o: i32)
        ensures
            o == degrees_orientation(self@),
    {
        match self.0 {
            90 => 6,
            180 => 3,
            270 => 8,
            _ => 1,
        }
    }
}

/// Turning a photo by the clockwise delta from `from` to `to` brings it to
/// `to`, and the delta is itself a right angle.
pub proof fn law_delta_composes(to: Rotation, from: Rotation)
    ensures
        (from@ + clockwise_delta(to@, from@)) % 360 == to@,
        is_right_angle(clockwise_delta(to@, from@)),
        clockwise_delta(to@, to@) == 0,
{
    to.lemma_valid();
    from.lemma_valid();
}

/// Writing a rotation as EXIF `Orientation` and reading it back gives the
/// same rotation.
pub proof fn law_exif_orientation_roundtrip(r: Rotation)
    ensures
        orientation_degrees(degrees_orientation(r@)) == r@,
{
    r.lemma_valid();
}

/// Star rating of a photo, always in 0..=5.
#[derive(Debug, Clone, Copy, PartialEq, Eq)]
pub struct Stars(i32);

impl View for Stars {
    type V = int;

    /// The rating (the invariant keeps it in 0..=5).
    closed spec fn view(&self) -> int {
        if 0 <= self.0 <= 5 {
            self.0 as int
        } else {
            0
        }
    }
}

impl Stars {
    #[verifier::type_invariant]
    spec fn inv(self) -> bool {
        0 <= self.0 <= 5
    }

    /// The rating `value`, or `InvalidStars` unless it is in 0..=5.
    pub fn new(value: i32) -> (r: Result<Stars, DomainError>)
        ensures
            (0 <= value <= 5) <==> r is Ok,
            r matches Ok(s) ==> s@ == value,
            r matches Err(e) ==> e == DomainError::InvalidStars(value),
    {
        if 0 <= value && value <= 5 {
            Ok(Stars(value))
        } else {
            Err(DomainError::InvalidStars(value))
        }
    }

    /// The rating as an integer.
    pub fn value(self) -> (v: i32)
        ensures
            v == self@,
            0 <= v <= 5,
    {
        proof {
            use_type_invariant(self);
        }
        self.0
    }
}

/// Keeps the non-empty tags of `ts` at their first occurrence, in order.
pub open spec fn dedupe_tags(ts: Seq<Seq<char>>) -> Seq<Seq<char>>
    decreases ts.len(),
{
    if ts.len() == 0 {
        Seq::<Seq<char>>::empty()
    } else {
        let d = dedupe_tags(ts.drop_last());
        let t = ts.last();
        if t.len() == 0 || d.contains(t) {
            d
        } else {
            d.push(t)
        }
    }
}

/// Deduplication keeps exactly the non-empty tags, each once.
pub proof fn lemma_dedupe_tags(ts: Seq<Seq<char>>)
    ensures
        dedupe_tags(ts).no_duplicates(),
        forall|k: int| 0 <= k < dedupe_tags(ts).len() ==> (#[trigger] dedupe_tags(ts)[k]).len() > 0
            && ts.contains(dedupe_tags(ts)[k]),
        forall|t: Seq<char>| #[trigger] ts.contains(t) && t.len() > 0 ==> dedupe_tags(ts).contains(t),
    decreases ts.len(),
{
    if ts.len() > 0 {
        let init = ts.drop_last();
        lemma_dedupe_tags(init);
        let d = dedupe_tags(init);
        assert forall|k: int| 0 <= k < dedupe_tags(ts).len() implies ts.contains(
            #[trigger] dedupe_tags(ts)[k],
        ) by {
            if k < d.len() {
                let j = choose|j: int| 0 <= j < init.len() && init[j] == d[k];
                assert(ts[j] == d[k]);
            } else {
                assert(ts[ts.len() - 1] == ts.last());
            }
        }
        assert forall|t: Seq<char>| #[trigger] ts.contains(t) && t.len() > 0 implies dedupe_tags(
            ts,
        ).contains(t) by {
            let j = choose|j: int| 0 <= j < ts.len() && ts[j] == t;
            if j < ts.len() - 1 {
                assert(init[j] == t);
                assert(init.contains(t));
                let m = choose|m: int| 0 <= m < d.len() && d[m] == t;
                assert(dedupe_tags(ts)[m] == t);
            } else if !d.contains(t) {
                assert(dedupe_tags(ts)[d.len() as int] == t);
            }
        }
    }
}

/// The normalized tags hold no empty tag and no tag twice; every tag of
/// the input that is not empty once trimmed and lower-cased is among them.
pub proof fn law_normalized_tags_distinct(raw: Seq<char>)
    ensures
        normalized_tags(raw) matches Some(s) ==> s == join_with(dedupe_tags(tag_pieces(raw)), ","@),
        dedupe_tags(tag_pieces(raw)).no_duplicates(),
        forall|k: int|
            0 <= k < dedupe_tags(tag_pieces(raw)).len() ==> (#[trigger] dedupe_tags(
                tag_pieces(raw),
            )[k]).len() > 0,
        forall|t: Seq<char>|
            #[trigger] tag_pieces(raw).contains(t) && t.len() > 0 ==> dedupe_tags(
                tag_pieces(raw),
            ).contains(t),
{
    lemma_dedupe_tags(tag_pieces(raw));
}

/// Each comma-separated piece of `raw`, trimmed then lower-cased.
pub open spec fn tag_pieces(raw: Seq<char>) -> Seq<Seq<char>> {
    split_on(raw, ',').map_values(|t: Seq<char>| lowercase(trim(t)))
}

/// The normalized tag list of `raw`: lower-cased, trimmed, without empty
/// tags or repeats, first occurrences kept in order, joined with `,`;
/// `None` when no tag is left.
pub open spec fn normalized_tags(raw: Seq<char>) -> Option<Seq<char>> {
    let d = dedupe_tags(tag_pieces(raw));
    if d.len() == 0 {
        None
    } else {
        Some(join_with(d, ","@))
    }
}

/// Whether `a` and `b` hold the same characters.
pub fn chars_eq(a: &Vec<char>, b: &Vec<char>) -> (r: bool)
    ensures
        r == (a@ == b@),
{
    if a.len() != b.len() {
        return false;
    }
    let mut i: usize = 0;
    while i < a.len()
        invariant
            i <= a.len() == b.len(),
            forall|k: int| 0 <= k < i ==> a@[k] == b@[k],
        decreases a.len() - i,
    {
        if a[i] != b[i] {
            return false;
        }
        i = i + 1;
    }
    assert(a@ =~= b@);
    true
}

/// Whether `list` holds `t`.
pub fn contains_chars(list: &Vec<Vec<char>>, t: &Vec<char>) -> (r: bool)
    ensures
        r == list@.map_values(|p: Vec<char>| p@).contains(t@),
{
    let ghost views = list@.map_values(|p: Vec<char>| p@);
    let mut i: usize = 0;
    while i < list.len()
        invariant
            i <= list.len(),
            views == list@.map_values(|p: Vec<char>| p@),
            forall|k: int| 0 <= k < i ==> views[k] != t@,
        decreases list.len() - i,
    {
        if chars_eq(&list[i], t) {
            assert(views[i as int] == t@);
            return true;
        }
        i = i + 1;
    }
    false
}

/// Normalizes a comma-separated tag string: lower case, trimmed, no empty
/// tags, no repeats, order of first appearance; `None` if no tag is left.
pub fn normalize_tags(raw: &str) -> (r: Option<String>)
    ensures
        r matches Some(s) ==> normalized_tags(raw@) == Some(s@),
        r is None ==> normalized_tags(raw@) is None,
{
    let chars = chars_of(raw);
    let pieces = split_chars(&chars, ',');
    let ghost tp = tag_pieces(raw@);
    let mut out: Vec<Vec<char>> = Vec::new();
    let mut i: usize = 0;
    while i < pieces.len()
        invariant
            i <= pieces.len(),
            chars@ == raw@,
            tp == tag_pieces(raw@),
            pieces@.len() == split_on(chars@, ',').len(),
            forall|k: int|
                0 <= k < pieces@.len() ==> #[trigger] pieces@[k]@ == split_on(chars@, ',')[k],
            out@.map_values(|p: Vec<char>| p@) == dedupe_tags(tp.take(i as int)),
        decreases pieces.len() - i,
    {
        let trimmed = trim_chars(&pieces[i]);
        let ts = string_of(&trimmed);
        let lowered = to_lowercase(ts.as_str());
        let t = chars_of(lowered.as_str());
        proof {
            assert(tp[i as int] == lowercase(trim(pieces@[i as int]@)));
            assert(t@ == tp[i as int]);
            assert(tp.take(i + 1).drop_last() == tp.take(i as int));
            assert(tp.take(i + 1).last() == tp[i as int]);
        }
        if t.len() > 0 && !contains_chars(&out, &t) {
            out.push(t);
            proof {
                assert(out@.map_values(|p: Vec<char>| p@) == dedupe_tags(tp.take(i as int)).push(
                    tp[i as int],
                ));
            }
        }
        i = i + 1;
    }
    assert(tp.take(pieces.len() as int) == tp);
    if out.len() == 0 {
        None
    } else {
        let joined = join_chars(&out, ",");
        Some(string_of(&joined))
    }
}

} // verus!
