//! Paths of the stage-wiring schema: dot-free segment names, each
//! possibly optional (`name?`) or a cycler-instance variable (`$name`).

use vstd::prelude::*;

verus! {

/// One path segment: its bare name, and whether the segment is optional
/// or stands for a cycler instance to be substituted.
#[derive(Clone, Debug, PartialEq, Eq, Hash)]
pub struct PathSegment {
    pub name: String,
    pub is_optional: bool,
    pub is_variable: bool,
}

impl PathSegment {
    /// Whether the raw text marks a variable: it starts with `$`.
    pub open spec fn text_is_variable(text: Seq<char>) -> bool {
        text.len() > 0 && text[0] == '$'
    }

    /// Whether the raw text marks an optional: it ends with `?`.
    pub open spec fn text_is_optional(text: Seq<char>) -> bool {
        text.len() > 0 && text.last() == '?'
    }

    /// The bare name inside the raw text, with the markers stripped.
    pub open spec fn text_name(text: Seq<char>) -> Seq<char> {
        text.subrange(
            if Self::text_is_variable(text) {
                1int
            } else {
                0int
            },
            text.len() - (if Self::text_is_optional(text) {
                1int
            } else {
                0int
            }),
        )
    }

    /// Reads one raw segment: a leading `$` marks a variable, a trailing
    /// `?` marks an optional, and the rest is the name.
    pub fn parse(segment: &str) -> (r: Self)
        ensures
            r.is_variable == Self::text_is_variable(segment@),
            r.is_optional == Self::text_is_optional(segment@),
            r.name@ == Self::text_name(segment@),
    {
        let n = segment.unicode_len();
        let is_variable = n > 0 && segment.get_char(0) == '$';
        let is_optional = n > 0 && segment.get_char(n - 1) == '?';
        let start: usize = if is_variable {
            1
        } else {
            0
        };
        let end: usize = if is_optional {
            n - 1
        } else {
            n
        };
        proof {
            if is_variable && is_optional {
                assert(segment@[0] == '$');
                assert(segment@[n - 1] == '?');
                assert(n >= 2);
            }
        }
        let name = segment.substring_char(start, end).to_owned();
        PathSegment { name, is_optional, is_variable }
    }

    /// A copy with the same name and markers.
    pub fn duplicate(&self) -> (r: Self)
        ensures
            r.name@ == self.name@,
            r.is_optional == self.is_optional,
            r.is_variable == self.is_variable,
    {
        PathSegment {
            name: self.name.clone(),
            is_optional: self.is_optional,
            is_variable: self.is_variable,
        }
    }
}

/// `a` carries the same name and markers as `b`.
pub open spec fn segment_like(a: PathSegment, b: PathSegment) -> bool {
    &&& a.name@ == b.name@
    &&& a.is_optional == b.is_optional
    &&& a.is_variable == b.is_variable
}

/// A path through the wiring schema: a run of segments.
#[derive(Clone, Debug, PartialEq, Eq, Hash)]
pub struct Path {
    pub segments: Vec<PathSegment>,
}

impl Path {
    /// The index of the first dot, or -1.
    pub open spec fn first_dot(text: Seq<char>) -> int
        decreases text.len(),
    {
        if text.len() == 0 {
            -1
        } else if text[0] == '.' {
            0
        } else {
            let rest = Self::first_dot(text.skip(1));
            if rest < 0 {
                -1
            } else {
                1 + rest
            }
        }
    }

    proof fn lemma_first_dot(text: Seq<char>)
        ensures
            Self::first_dot(text) < 0 ==> forall|k: int| 0 <= k < text.len() ==> text[k] != '.',
            Self::first_dot(text) >= 0 ==> {
                let fd = Self::first_dot(text);
                &&& 0 <= fd < text.len()
                &&& text[fd] == '.'
                &&& forall|k: int| 0 <= k < fd ==> text[k] != '.'
            },
        decreases text.len(),
    {
        if text.len() == 0 {
        } else if text[0] == '.' {
        } else {
            Self::lemma_first_dot(text.skip(1));
            let rest = Self::first_dot(text.skip(1));
            if rest < 0 {
                assert forall|k: int| 0 <= k < text.len() implies text[k] != '.' by {
                    if k > 0 {
                        assert(text.skip(1)[k - 1] == text[k]);
                    }
                }
            } else {
                assert(text.skip(1)[rest] == text[rest + 1]);
                assert forall|k: int| 0 <= k < rest + 1 implies text[k] != '.' by {
                    if k > 0 {
                        assert(text.skip(1)[k - 1] == text[k]);
                    }
                }
            }
        }
    }

    /// The raw texts between the dots, in order; a text without dots is
    /// one part, and each dot separates two (possibly empty) parts.
    pub open spec fn split_dots(text: Seq<char>) -> Seq<Seq<char>>
        decreases text.len(),
        via Self::split_dots_decreases
    {
        let fd = Self::first_dot(text);
        if fd < 0 {
            seq![text]
        } else {
            seq![text.take(fd)] + Self::split_dots(text.skip(fd + 1))
        }
    }

    #[via_fn]
    proof fn split_dots_decreases(text: Seq<char>) {
        Self::lemma_first_dot(text);
    }

    proof fn lemma_split_dots_len(text: Seq<char>)
        ensures
            Self::split_dots(text).len() >= 1,
        decreases text.len(),
    {
        Self::lemma_first_dot(text);
        let fd = Self::first_dot(text);
        if fd >= 0 {
            Self::lemma_split_dots_len(text.skip(fd + 1));
        }
    }

    /// `segment` is what reading `text` as one raw segment gives.
    pub open spec fn parsed_segment(text: Seq<char>, segment: PathSegment) -> bool {
        &&& segment.is_variable == PathSegment::text_is_variable(text)
        &&& segment.is_optional == PathSegment::text_is_optional(text)
        &&& segment.name@ == PathSegment::text_name(text)
    }

    /// Reads a dotted path: one segment per part between the dots.
    pub fn parse(path: &str) -> (r: Self)
        ensures
            r.segments@.len() == Self::split_dots(path@).len(),
            forall|j: int|
                0 <= j < r.segments@.len() ==> Self::parsed_segment(
                    Self::split_dots(path@)[j],
                    #[trigger] r.segments@[j],
                ),
    {
        let ghost parts = Self::split_dots(path@);
        proof {
            Self::lemma_split_dots_len(path@);
            assert(path@.skip(0) =~= path@);
            assert(parts.skip(0) =~= parts);
        }
        let n = path.unicode_len();
        let mut segments: Vec<PathSegment> = Vec::new();
        let mut position: usize = 0;
        loop
            invariant_except_break
                segments@.len() < parts.len(),
                Self::split_dots(path@.skip(position as int)) == parts.skip(
                    segments@.len() as int,
                ),
            invariant
                n == path@.len(),
                position <= n,
                segments@.len() <= parts.len(),
                forall|j: int|
                    0 <= j < segments@.len() ==> Self::parsed_segment(
                        parts[j],
                        #[trigger] segments@[j],
                    ),
            ensures
                segments@.len() == parts.len(),
                forall|j: int|
                    0 <= j < segments@.len() ==> Self::parsed_segment(
                        parts[j],
                        #[trigger] segments@[j],
                    ),
            decreases n - position + parts.len() - segments@.len(),
        {
            let ghost suffix = path@.skip(position as int);
            let ghost k = segments@.len() as int;
            let mut i: usize = position;
            while i < n
                invariant
                    n == path@.len(),
                    position <= i <= n,
                    forall|q: int| position <= q < i ==> path@[q] != '.',
                ensures
                    position <= i <= n,
                    forall|q: int| position <= q < i ==> path@[q] != '.',
                    i < n ==> path@[i as int] == '.',
                decreases n - i,
            {
                if path.get_char(i) == '.' {
                    break ;
                }
                i = i + 1;
            }
            proof {
                Self::lemma_first_dot(suffix);
                assert forall|q: int| 0 <= q < i - position implies suffix[q] != '.' by {
                    assert(suffix[q] == path@[position + q]);
                }
                if i < n {
                    assert(suffix[i - position] == path@[i as int]);
                    assert(Self::first_dot(suffix) == i - position);
                    assert(suffix.take(i - position) =~= path@.subrange(
                        position as int,
                        i as int,
                    ));
                    assert(suffix.skip(i - position + 1) =~= path@.skip(i + 1 as int));
                    assert(parts.skip(k)[0] == suffix.take(i - position));
                    assert(parts[k] == path@.subrange(position as int, i as int));
                    assert(parts.skip(k).skip(1) =~= parts.skip(k + 1));
                } else {
                    assert(Self::first_dot(suffix) < 0);
                    assert(parts.skip(k) == seq![suffix]);
                    assert(parts.skip(k)[0] == suffix);
                    assert(parts.skip(k)[0] == parts[k]);
                    assert(parts[k] == path@.skip(position as int));
                    assert(path@.skip(position as int) =~= path@.subrange(
                        position as int,
                        n as int,
                    ));
                }
            }
            let segment_text = path.substring_char(position, i);
            segments.push(PathSegment::parse(segment_text));
            if i == n {
                proof {
                    assert(parts.skip(k).len() == 1);
                    assert(segments@.len() == parts.len());
                }
                break ;
            }
            proof {
                assert(parts.skip(k)[0] == parts[k]);
            }
            proof {
                Self::lemma_split_dots_len(path@.skip(i + 1 as int));
            }
            position = i + 1;
        }
        Path { segments }
    }

    /// Whether any segment is a variable.
    pub open spec fn has_variable(&self) -> bool {
        exists|i: int| 0 <= i < self.segments@.len() && self.segments@[i].is_variable
    }

    /// Whether any segment is optional.
    pub open spec fn has_optional(&self) -> bool {
        exists|i: int| 0 <= i < self.segments@.len() && self.segments@[i].is_optional
    }

    /// Whether some segment is a cycler-instance variable.
    pub fn contains_variable(&self) -> (r: bool)
        ensures
            r == self.has_variable(),
    {
        let n = self.segments.len();
        let mut i: usize = 0;
        while i < n
            invariant
                n == self.segments@.len(),
                i <= n,
                forall|j: int| 0 <= j < i ==> !self.segments@[j].is_variable,
            decreases n - i,
        {
            if self.segments[i].is_variable {
                return true;
            }
            i = i + 1;
        }
        false
    }

    /// Whether some segment is optional.
    pub fn contains_optional(&self) -> (r: bool)
        ensures
            r == self.has_optional(),
    {
        let n = self.segments.len();
        let mut i: usize = 0;
        while i < n
            invariant
                n == self.segments@.len(),
                i <= n,
                forall|j: int| 0 <= j < i ==> !self.segments@[j].is_optional,
            decreases n - i,
        {
            if self.segments[i].is_optional {
                return true;
            }
            i = i + 1;
        }
        false
    }

    /// Segment `j` of the path expanded for `instance`: a variable
    /// segment takes the instance's name and stops being a variable;
    /// any other segment is kept.
    pub open spec fn expanded_segment(
        original: PathSegment,
        instance: Seq<char>,
        result: PathSegment,
    ) -> bool {
        if original.is_variable {
            &&& result.name@ == instance
            &&& result.is_optional == original.is_optional
            &&& !result.is_variable
        } else {
            segment_like(result, original)
        }
    }

    /// Substitutes cycler-instance variables: a path without variables
    /// expands to itself alone; one with variables expands to one path
    /// per instance, each variable segment replaced by that instance's
    /// name.
    pub fn expand_variables(&self, instances: &Vec<String>) -> (r: Vec<Path>)
        ensures
            !self.has_variable() ==> r@.len() == 1 && r@[0].segments@.len()
                == self.segments@.len() && (forall|j: int|
                0 <= j < self.segments@.len() ==> segment_like(
                    #[trigger] r@[0].segments@[j],
                    self.segments@[j],
                )),
            self.has_variable() ==> r@.len() == instances@.len() && (forall|k: int, j: int|
                0 <= k < instances@.len() && 0 <= j < self.segments@.len()
                    ==> Self::expanded_segment(
                    self.segments@[j],
                    instances@[k]@,
                    #[trigger] r@[k].segments@[j],
                )),
            self.has_variable() ==> forall|k: int|
                0 <= k < instances@.len() ==> (#[trigger] r@[k].segments@.len())
                    == self.segments@.len(),
    {
        let n = self.segments.len();
        if !self.contains_variable() {
            let mut segments: Vec<PathSegment> = Vec::new();
            let mut j: usize = 0;
            while j < n
                invariant
                    n == self.segments@.len(),
                    j <= n,
                    segments@.len() == j,
                    forall|q: int| 0 <= q < j ==> segment_like(
                        #[trigger] segments@[q],
                        self.segments@[q],
                    ),
                decreases n - j,
            {
                segments.push(self.segments[j].duplicate());
                j = j + 1;
            }
            let mut result: Vec<Path> = Vec::new();
            result.push(Path { segments });
            return result;
        }
        let m = instances.len();
        let mut result: Vec<Path> = Vec::new();
        let mut k: usize = 0;
        while k < m
            invariant
                n == self.segments@.len(),
                m == instances@.len(),
                k <= m,
                result@.len() == k,
                forall|p: int|
                    0 <= p < k ==> (#[trigger] result@[p].segments@.len())
                        == self.segments@.len(),
                forall|p: int, j: int|
                    0 <= p < k && 0 <= j < n ==> Self::expanded_segment(
                        self.segments@[j],
                        instances@[p]@,
                        #[trigger] result@[p].segments@[j],
                    ),
            decreases m - k,
        {
            let mut segments: Vec<PathSegment> = Vec::new();
            let mut j: usize = 0;
            while j < n
                invariant
                    n == self.segments@.len(),
                    m == instances@.len(),
                    k < m,
                    j <= n,
                    segments@.len() == j,
                    forall|q: int| 0 <= q < j ==> Self::expanded_segment(
                        self.segments@[q],
                        instances@[k as int]@,
                        #[trigger] segments@[q],
                    ),
                decreases n - j,
            {
                let segment = &self.segments[j];
                if segment.is_variable {
                    segments.push(
                        PathSegment {
                            name: instances[k].clone(),
                            is_optional: segment.is_optional,
                            is_variable: false,
                        },
                    );
                } else {
                    segments.push(segment.duplicate());
                }
                j = j + 1;
            }
            result.push(Path { segments });
            k = k + 1;
        }
        result
    }
}

} // verus!
