//! Nested output-struct hierarchies of the wiring schema.
//!
//! A hierarchy is grown by replaying insertion rules derived from a
//! path: enter a struct, insert a named field, open an optional layer,
//! and finally append the leaf data type. Conflicting insertions — an
//! optional or a leaf in place of a non-empty struct, anything into an
//! optional layer, or a leaf of another data type — are refused.

use vstd::prelude::*;

use crate::merge::vec_entry_mut;
use crate::path::PathSegment;

verus! {

/// Why an insertion was refused.
#[derive(Clone, Copy, Debug, PartialEq, Eq, Structural)]
pub enum HierarchyError {
    /// An optional layer cannot replace a struct that already has fields.
    OptionalInNonEmptyStruct,
    /// A leaf data type cannot replace a struct that already has fields.
    DataTypeInNonEmptyStruct,
    /// A field cannot be inserted into an optional layer.
    FieldInOptional,
    /// A struct cannot replace an optional layer.
    StructInOptional,
    /// A leaf data type cannot replace an optional layer.
    DataTypeInOptional,
    /// The leaf already carries a different data type.
    MismatchedDataType,
}

/// One step of replaying a path into a hierarchy.
#[derive(Clone, Debug)]
pub enum InsertionRule {
    /// Insert (or descend into) the field of this name.
    InsertField { name: String },
    /// Open an optional layer.
    BeginOptional,
    /// Enter the struct at this position.
    BeginStruct,
    /// Append the leaf carrying this data type.
    AppendDataType { data_type: String },
}

/// A node of the output-struct hierarchy: a struct of named children, an
/// optional layer, or a leaf holding a data type.
#[derive(Debug)]
pub enum StructHierarchy {
    Struct { fields: Vec<(String, StructHierarchy)> },
    Optional { child: Box<StructHierarchy> },
    Field { data_type: String },
}

impl Default for StructHierarchy {
    /// A struct with no fields yet.
    fn default() -> (r: Self)
        ensures
            StructHierarchy::is_empty_struct(r),
    {
        StructHierarchy::Struct { fields: Vec::new() }
    }
}

impl StructHierarchy {
    /// A struct node without fields.
    pub open spec fn is_empty_struct(h: StructHierarchy) -> bool {
        h matches StructHierarchy::Struct { fields } && fields@.len() == 0
    }

    /// The first field with this name, or -1.
    pub open spec fn field_index(
        fields: Seq<(String, StructHierarchy)>,
        name: Seq<char>,
    ) -> int
        decreases fields.len(),
    {
        if fields.len() == 0 {
            -1
        } else if fields[0].0@ == name {
            0
        } else {
            let rest = Self::field_index(fields.skip(1), name);
            if rest < 0 {
                -1
            } else {
                1 + rest
            }
        }
    }

    proof fn lemma_field_index(fields: Seq<(String, StructHierarchy)>, name: Seq<char>)
        ensures
            Self::field_index(fields, name) < 0 ==> forall|k: int|
                0 <= k < fields.len() ==> fields[k].0@ != name,
            Self::field_index(fields, name) >= 0 ==> {
                let fi = Self::field_index(fields, name);
                &&& 0 <= fi < fields.len()
                &&& fields[fi].0@ == name
                &&& forall|k: int| 0 <= k < fi ==> fields[k].0@ != name
            },
        decreases fields.len(),
    {
        if fields.len() == 0 {
        } else if fields[0].0@ == name {
        } else {
            Self::lemma_field_index(fields.skip(1), name);
            let rest = Self::field_index(fields.skip(1), name);
            if rest < 0 {
                assert forall|k: int| 0 <= k < fields.len() implies fields[k].0@ != name by {
                    if k > 0 {
                        assert(fields.skip(1)[k - 1] == fields[k]);
                    }
                }
            } else {
                assert(fields.skip(1)[rest] == fields[rest + 1]);
                assert forall|k: int| 0 <= k < rest + 1 implies fields[k].0@ != name by {
                    if k > 0 {
                        assert(fields.skip(1)[k - 1] == fields[k]);
                    }
                }
            }
        }
    }

    /// The error replaying `rules` into `h` runs into, if any; it
    /// depends on the existing hierarchy and the rules alone.
    pub open spec fn insert_error(
        h: StructHierarchy,
        rules: Seq<InsertionRule>,
    ) -> Option<HierarchyError>
        decreases rules.len(),
    {
        if rules.len() == 0 {
            None
        } else {
            match h {
                StructHierarchy::Struct { fields } => match rules[0] {
                    InsertionRule::InsertField { name } => {
                        let k = Self::field_index(fields@, name@);
                        if k >= 0 {
                            Self::insert_error(fields@[k].1, rules.skip(1))
                        } else {
                            None
                        }
                    },
                    InsertionRule::BeginOptional => if fields@.len() > 0 {
                        Some(HierarchyError::OptionalInNonEmptyStruct)
                    } else {
                        None
                    },
                    InsertionRule::BeginStruct => Self::insert_error(h, rules.skip(1)),
                    InsertionRule::AppendDataType { .. } => if fields@.len() > 0 {
                        Some(HierarchyError::DataTypeInNonEmptyStruct)
                    } else {
                        None
                    },
                },
                StructHierarchy::Optional { .. } => match rules[0] {
                    InsertionRule::InsertField { .. } => Some(HierarchyError::FieldInOptional),
                    InsertionRule::BeginOptional => Self::insert_error(h, rules.skip(1)),
                    InsertionRule::BeginStruct => Some(HierarchyError::StructInOptional),
                    InsertionRule::AppendDataType { .. } => Some(
                        HierarchyError::DataTypeInOptional,
                    ),
                },
                StructHierarchy::Field { data_type } => match rules[0] {
                    InsertionRule::AppendDataType { data_type: appended } => if data_type@
                        != appended@ {
                        Some(HierarchyError::MismatchedDataType)
                    } else {
                        None
                    },
                    _ => None,
                },
            }
        }
    }

    /// Replaying rules into a fresh empty struct never errs: every rule
    /// either grows fresh structure or ends in a fresh leaf.
    pub proof fn lemma_insert_into_empty_never_errs(
        h: StructHierarchy,
        rules: Seq<InsertionRule>,
    )
        requires
            Self::is_empty_struct(h),
        ensures
            Self::insert_error(h, rules) is None,
        decreases rules.len(),
    {
        if rules.len() == 0 {
        } else {
            match rules[0] {
                InsertionRule::BeginStruct => {
                    Self::lemma_insert_into_empty_never_errs(h, rules.skip(1));
                },
                _ => {},
            }
        }
    }

    /// `a` and `b` are the same hierarchy: the same shape with the same
    /// field names, in the same order, and the same leaf data types.
    pub open spec fn same_hierarchy(a: StructHierarchy, b: StructHierarchy) -> bool
        decreases a,
    {
        match (a, b) {
            (
                StructHierarchy::Struct { fields: af },
                StructHierarchy::Struct { fields: bf },
            ) => af@.len() == bf@.len() && (forall|i: int|
                0 <= i < af@.len() ==> (#[trigger] af@[i]).0@ == bf@[i].0@
                    && Self::same_hierarchy(af@[i].1, bf@[i].1)),
            (
                StructHierarchy::Optional { child: ac },
                StructHierarchy::Optional { child: bc },
            ) => Self::same_hierarchy(*ac, *bc),
            (
                StructHierarchy::Field { data_type: ad },
                StructHierarchy::Field { data_type: bd },
            ) => ad@ == bd@,
            _ => false,
        }
    }

    /// Every hierarchy is the same as itself.
    pub proof fn lemma_same_hierarchy_reflexive(a: StructHierarchy)
        ensures
            Self::same_hierarchy(a, a),
        decreases a,
    {
        match a {
            StructHierarchy::Struct { fields } => {
                assert forall|i: int| 0 <= i < fields@.len() implies (#[trigger] fields@[i]).0@
                    == fields@[i].0@ && Self::same_hierarchy(fields@[i].1, fields@[i].1) by {
                    Self::lemma_same_hierarchy_reflexive(fields@[i].1);
                }
            },
            StructHierarchy::Optional { child } => {
                Self::lemma_same_hierarchy_reflexive(*child);
            },
            StructHierarchy::Field { .. } => {},
        }
    }

    /// `post` is what replaying `rules` into `pre` leaves behind, on
    /// success: rules descend into existing fields of the same name,
    /// append new fields, open optional layers over fresh children, and
    /// end in a leaf; replaying into an existing leaf changes nothing.
    pub open spec fn inserted(
        pre: StructHierarchy,
        rules: Seq<InsertionRule>,
        post: StructHierarchy,
    ) -> bool
        decreases rules.len(),
    {
        if rules.len() == 0 {
            post == pre
        } else {
            match pre {
                StructHierarchy::Struct { fields } => {
                    let pf = fields@;
                    match rules[0] {
                        InsertionRule::InsertField { name } => {
                            let k = Self::field_index(pf, name@);
                            if k >= 0 {
                                post matches StructHierarchy::Struct { fields: qfv } && {
                                    let qf = qfv@;
                                    &&& qf.len() == pf.len()
                                    &&& (forall|j: int|
                                        0 <= j < pf.len() && j != k ==> qf[j] == pf[j])
                                    &&& qf[k].0@ == pf[k].0@
                                    &&& Self::inserted(pf[k].1, rules.skip(1), qf[k].1)
                                }
                            } else {
                                post matches StructHierarchy::Struct { fields: qfv } && {
                                    let qf = qfv@;
                                    &&& qf.len() == pf.len() + 1
                                    &&& (forall|j: int| 0 <= j < pf.len() ==> qf[j] == pf[j])
                                    &&& qf.last().0@ == name@
                                    &&& (exists|fresh: StructHierarchy|
                                        Self::is_empty_struct(fresh) && Self::inserted(
                                            fresh,
                                            rules.skip(1),
                                            qf.last().1,
                                        ))
                                }
                            }
                        },
                        InsertionRule::BeginOptional => pf.len() == 0 && (post matches
                            StructHierarchy::Optional { child } && (exists|fresh: StructHierarchy|
                            Self::is_empty_struct(fresh) && Self::inserted(
                                fresh,
                                rules.skip(1),
                                *child,
                            ))),
                        InsertionRule::BeginStruct => Self::inserted(pre, rules.skip(1), post),
                        InsertionRule::AppendDataType { data_type } => pf.len() == 0 && (post
                            matches StructHierarchy::Field { data_type: leaf } && leaf@
                            == data_type@),
                    }
                },
                StructHierarchy::Optional { .. } => match rules[0] {
                    InsertionRule::BeginOptional => Self::inserted(pre, rules.skip(1), post),
                    _ => false,
                },
                StructHierarchy::Field { .. } => post == pre,
            }
        }
    }

    /// Replays the rules into this hierarchy. The refused combinations
    /// are exactly those `insert_error` names, and a refusal never
    /// silently replaces anything: the hierarchy keeps its shape, its
    /// field names and its stored leaf data types.
    pub fn insert(&mut self, rules: Vec<InsertionRule>) -> (r: Result<(), HierarchyError>)
        ensures
            r is Err <==> Self::insert_error(*old(self), rules@) is Some,
            r matches Err(e) ==> Self::insert_error(*old(self), rules@) == Some(e),
            r is Err ==> Self::same_hierarchy(*old(self), *final(self)),
            r is Ok ==> Self::inserted(*old(self), rules@, *final(self)),
    {
        proof {
            assert(rules@.skip(0) =~= rules@);
        }
        self.insert_at(&rules, 0)
    }

    /// Replays the rules from position `i` on.
    #[verifier::loop_isolation(false)]
    fn insert_at(&mut self, rules: &Vec<InsertionRule>, i: usize) -> (r: Result<
        (),
        HierarchyError,
    >)
        requires
            i <= rules@.len(),
        ensures
            r is Err <==> Self::insert_error(*old(self), rules@.skip(i as int)) is Some,
            r matches Err(e) ==> Self::insert_error(*old(self), rules@.skip(i as int)) == Some(e),
            r is Err ==> Self::same_hierarchy(*old(self), *final(self)),
            r is Ok ==> Self::inserted(*old(self), rules@.skip(i as int), *final(self)),
        decreases rules@.len() - i,
    {
        if i == rules.len() {
            proof {
                assert(rules@.skip(i as int) =~= Seq::<InsertionRule>::empty());
            }
            return Ok(());
        }
        let ghost remaining = rules@.skip(i as int);
        proof {
            assert(remaining[0] == rules@[i as int]);
            assert(remaining.skip(1) =~= rules@.skip(i + 1 as int));
        }
        let mut h = StructHierarchy::default();
        core::mem::swap(self, &mut h);
        proof {
            Self::lemma_same_hierarchy_reflexive(*old(self));
        }
        match h {
            StructHierarchy::Struct { mut fields } => {
                match &rules[i] {
                    InsertionRule::InsertField { name } => {
                        let ghost pf0 = fields@;
                        let n = fields.len();
                        let mut j: usize = 0;
                        while j < n
                            invariant
                                i < rules@.len(),
                                fields@ == pf0,
                                n == fields@.len(),
                                j <= n,
                                forall|q: int| 0 <= q < j ==> fields@[q].0@ != name@,
                            decreases n - j,
                        {
                            if fields[j].0 == *name {
                                proof {
                                    Self::lemma_field_index(fields@, name@);
                                    assert(Self::field_index(fields@, name@) == j);
                                }
                                let ghost pf = fields@;
                                let entry = vec_entry_mut(&mut fields, j);
                                let result = entry.1.insert_at(rules, i + 1);
                                proof {
                                    assert(fields@ == pf.update(
                                        j as int,
                                        (pf[j as int].0, fields@[j as int].1),
                                    ));
                                    assert(rules@.skip(i as int)[0] == rules@[i as int]);
                                    assert(rules@.skip(i as int).skip(1) =~= rules@.skip(
                                        i + 1 as int,
                                    ));
                                    assert(rules@.skip(i as int).skip(1) == rules@.skip(
                                        i + 1 as int,
                                    ));
                                    assert(rules@[i as int] matches InsertionRule::InsertField {
                                        name: nm,
                                    } && nm@ == name@);
                                    assert(Self::field_index(pf, name@) == j);
                                    assert(rules@.skip(i as int)[0] matches
                                        InsertionRule::InsertField {
                                        name: nm2,
                                    } && Self::field_index(pf, nm2@) == j);
                                }
                                *self = StructHierarchy::Struct { fields };
                                proof {
                                    assert(Self::insert_error(*old(self), rules@.skip(i as int))
                                        == Self::insert_error(
                                        pf[j as int].1,
                                        rules@.skip(i + 1 as int),
                                    ));
                                    match result {
                                        Ok(_) => {
                                            assert(Self::inserted(
                                                *old(self),
                                                rules@.skip(i as int),
                                                *self,
                                            ));
                                        },
                                        Err(_) => {
                                            assert forall|q: int| 0 <= q < pf.len()
                                                implies (#[trigger] pf[q]).0@
                                                == fields@[q].0@ && Self::same_hierarchy(
                                                pf[q].1,
                                                fields@[q].1,
                                            ) by {
                                                if q != j as int {
                                                    assert(fields@[q] == pf[q]);
                                                    Self::lemma_same_hierarchy_reflexive(
                                                        pf[q].1,
                                                    );
                                                }
                                            }
                                            assert(Self::same_hierarchy(*old(self), *self));
                                        },
                                    }
                                }
                                return result;
                            }
                            j = j + 1;
                        }
                        proof {
                            Self::lemma_field_index(fields@, name@);
                            assert(Self::field_index(fields@, name@) < 0);
                        }
                        let mut child = StructHierarchy::default();
                        let ghost fresh = child;
                        let ghost pf = fields@;
                        let result = child.insert_at(rules, i + 1);
                        proof {
                            assert(rules@.skip(i as int)[0] == rules@[i as int]);
                            assert(rules@.skip(i as int).skip(1) =~= rules@.skip(i + 1 as int));
                            assert(rules@.skip(i as int).skip(1) == rules@.skip(i + 1 as int));
                            assert(rules@[i as int] matches InsertionRule::InsertField {
                                name: nm,
                            } && nm@ == name@);
                            assert(Self::field_index(pf, name@) < 0);
                            assert(rules@.skip(i as int)[0] matches InsertionRule::InsertField {
                                name: nm2,
                            } && Self::field_index(pf, nm2@) < 0);
                            match result {
                                Err(_) => {
                                    Self::lemma_insert_into_empty_never_errs(
                                        fresh,
                                        rules@.skip(i + 1 as int),
                                    );
                                    assert(false);
                                },
                                Ok(_) => {},
                            }
                        }
                        fields.push((clone_string(name), child));
                        *self = StructHierarchy::Struct { fields };
                        proof {
                            match result {
                                Ok(_) => {
                                    assert(fields@ == pf.push((fields@.last().0, child)));
                                    assert(fields@.last().0@ == name@);
                                    assert(fields@.last().1 == child);
                                    assert(Self::inserted(
                                        fresh,
                                        rules@.skip(i + 1 as int),
                                        fields@.last().1,
                                    ));
                                    assert(rules@.skip(i as int).skip(1) == rules@.skip(
                                        i + 1 as int,
                                    ));
                                    assert(Self::is_empty_struct(fresh) && Self::inserted(
                                        fresh,
                                        rules@.skip(i as int).skip(1),
                                        fields@.last().1,
                                    ));
                                    assert(Self::inserted(
                                        *old(self),
                                        rules@.skip(i as int),
                                        *self,
                                    ));
                                },
                                Err(_) => {},
                            }
                        }
                        return result;
                    },
                    InsertionRule::BeginOptional => {
                        if fields.len() > 0 {
                            *self = StructHierarchy::Struct { fields };
                            return Err(HierarchyError::OptionalInNonEmptyStruct);
                        }
                        let mut child = StructHierarchy::default();
                        let ghost fresh = child;
                        let result = child.insert_at(rules, i + 1);
                        proof {
                            assert(rules@.skip(i as int)[0] == rules@[i as int]);
                            assert(rules@.skip(i as int).skip(1) =~= rules@.skip(i + 1 as int));
                        }
                        match result {
                            Ok(()) => {
                                *self = StructHierarchy::Optional { child: Box::new(child) };
                                proof {
                                    assert(Self::is_empty_struct(fresh) && Self::inserted(
                                        fresh,
                                        rules@.skip(i as int).skip(1),
                                        child,
                                    ));
                                }
                                return Ok(());
                            },
                            Err(e) => {
                                proof {
                                    Self::lemma_insert_into_empty_never_errs(
                                        fresh,
                                        rules@.skip(i + 1 as int),
                                    );
                                    assert(false);
                                }
                                *self = StructHierarchy::Struct { fields };
                                return Err(e);
                            },
                        }
                    },
                    InsertionRule::BeginStruct => {
                        *self = StructHierarchy::Struct { fields };
                        proof {
                            assert(rules@.skip(i as int)[0] == rules@[i as int]);
                            assert(rules@.skip(i as int).skip(1) =~= rules@.skip(i + 1 as int));
                        }
                        return self.insert_at(rules, i + 1);
                    },
                    InsertionRule::AppendDataType { data_type } => {
                        if fields.len() > 0 {
                            *self = StructHierarchy::Struct { fields };
                            return Err(HierarchyError::DataTypeInNonEmptyStruct);
                        }
                        *self = StructHierarchy::Field { data_type: clone_string(data_type) };
                        return Ok(());
                    },
                }
            },
            StructHierarchy::Optional { child } => {
                match &rules[i] {
                    InsertionRule::InsertField { .. } => {
                        *self = StructHierarchy::Optional { child };
                        return Err(HierarchyError::FieldInOptional);
                    },
                    InsertionRule::BeginOptional => {
                        *self = StructHierarchy::Optional { child };
                        proof {
                            assert(rules@.skip(i as int)[0] == rules@[i as int]);
                            assert(rules@.skip(i as int).skip(1) =~= rules@.skip(i + 1 as int));
                        }
                        return self.insert_at(rules, i + 1);
                    },
                    InsertionRule::BeginStruct => {
                        *self = StructHierarchy::Optional { child };
                        return Err(HierarchyError::StructInOptional);
                    },
                    InsertionRule::AppendDataType { .. } => {
                        *self = StructHierarchy::Optional { child };
                        return Err(HierarchyError::DataTypeInOptional);
                    },
                }
            },
            StructHierarchy::Field { data_type } => {
                match &rules[i] {
                    InsertionRule::AppendDataType { data_type: appended } => {
                        if data_type == *appended {
                            *self = StructHierarchy::Field { data_type };
                            return Ok(());
                        }
                        *self = StructHierarchy::Field { data_type };
                        return Err(HierarchyError::MismatchedDataType);
                    },
                    _ => {
                        *self = StructHierarchy::Field { data_type };
                        return Ok(());
                    },
                }
            },
        }
    }

    /// Where the rules of segment `j` start within a replayed path: two
    /// rules per segment, three when the segment is optional.
    pub open spec fn rules_start(path: Seq<PathSegment>, j: int) -> int
        decreases j,
    {
        if j <= 0 {
            0
        } else {
            Self::rules_start(path, j - 1) + if path[j - 1].is_optional {
                3int
            } else {
                2int
            }
        }
    }
}

/// Turns an expanded (variable-free) path into the rules that replay it:
/// for each segment, enter the struct and insert the field, opening an
/// optional layer when the segment is optional; finally append the leaf
/// data type.
pub fn path_into_insertion_rules(path: &Vec<PathSegment>, data_type: &str) -> (r: Vec<
    InsertionRule,
>)
    requires
        forall|j: int| 0 <= j < path@.len() ==> !path@[j].is_variable,
    ensures
        r@.len() == StructHierarchy::rules_start(path@, path@.len() as int) + 1,
        forall|j: int|
            0 <= j < path@.len() ==> (#[trigger] r@[StructHierarchy::rules_start(path@, j)])
                is BeginStruct,
        forall|j: int|
            0 <= j < path@.len() ==> ((#[trigger] r@[StructHierarchy::rules_start(path@, j) + 1])
                matches InsertionRule::InsertField { name } && name@ == path@[j].name@),
        forall|j: int|
            0 <= j < path@.len() && path@[j].is_optional ==> (#[trigger] r@[StructHierarchy::rules_start(path@, j) + 2]) is BeginOptional,
        (r@.last() matches InsertionRule::AppendDataType { data_type: leaf } && leaf@
            == data_type@),
{
    let n = path.len();
    let mut rules: Vec<InsertionRule> = Vec::new();
    let mut j: usize = 0;
    while j < n
        invariant
            n == path@.len(),
            j <= n,
            rules@.len() == StructHierarchy::rules_start(path@, j as int),
            forall|q: int|
                0 <= q < j ==> (#[trigger] rules@[StructHierarchy::rules_start(path@, q)])
                    is BeginStruct,
            forall|q: int|
                0 <= q < j ==> ((#[trigger] rules@[StructHierarchy::rules_start(path@, q) + 1])
                    matches InsertionRule::InsertField { name } && name@ == path@[q].name@),
            forall|q: int|
                0 <= q < j && path@[q].is_optional ==> (#[trigger] rules@[StructHierarchy::rules_start(path@, q) + 2]) is BeginOptional,
        decreases n - j,
    {
        let ghost pre = rules@;
        let ghost jj = j as int;
        proof {
            lemma_rules_start_bounds(path@, jj);
        }
        rules.push(InsertionRule::BeginStruct);
        rules.push(InsertionRule::InsertField { name: path[j].name.clone() });
        if path[j].is_optional {
            rules.push(InsertionRule::BeginOptional);
        }
        proof {
            assert(StructHierarchy::rules_start(path@, jj + 1)
                == StructHierarchy::rules_start(path@, jj) + (if path@[jj].is_optional {
                3int
            } else {
                2int
            }));
            assert forall|q: int| 0 <= q < jj implies StructHierarchy::rules_start(path@, q)
                + (if path@[q].is_optional {
                3int
            } else {
                2int
            }) <= StructHierarchy::rules_start(path@, jj) by {
                lemma_rules_start_monotone(path@, q + 1, jj);
            }
            assert forall|q: int| 0 <= q < jj + 1 implies (#[trigger] rules@[
                StructHierarchy::rules_start(path@, q)]) is BeginStruct by {
                if q < jj {
                    lemma_rules_start_bounds(path@, q);
                    assert(rules@[StructHierarchy::rules_start(path@, q)]
                        == pre[StructHierarchy::rules_start(path@, q)]);
                } else {
                    assert(StructHierarchy::rules_start(path@, q) == pre.len());
                }
            }
            assert forall|q: int| 0 <= q < jj + 1 implies ((#[trigger] rules@[
                StructHierarchy::rules_start(path@, q) + 1]) matches InsertionRule::InsertField {
                name,
            } && name@ == path@[q].name@) by {
                if q < jj {
                    lemma_rules_start_bounds(path@, q);
                    assert(rules@[StructHierarchy::rules_start(path@, q) + 1]
                        == pre[StructHierarchy::rules_start(path@, q) + 1]);
                } else {
                    assert(StructHierarchy::rules_start(path@, q) + 1 == pre.len() + 1);
                }
            }
            assert forall|q: int| 0 <= q < jj + 1 && path@[q].is_optional implies (
            #[trigger] rules@[StructHierarchy::rules_start(path@, q) + 2]) is BeginOptional by {
                if q < jj {
                    lemma_rules_start_bounds(path@, q);
                    assert(rules@[StructHierarchy::rules_start(path@, q) + 2]
                        == pre[StructHierarchy::rules_start(path@, q) + 2]);
                } else {
                    assert(StructHierarchy::rules_start(path@, q) + 2 == pre.len() + 2);
                }
            }
        }
        j = j + 1;
    }
    let ghost pre = rules@;
    rules.push(InsertionRule::AppendDataType { data_type: data_type.to_owned() });
    proof {
        let nn = n as int;
        assert forall|q: int| 0 <= q < nn implies StructHierarchy::rules_start(path@, q)
            + (if path@[q].is_optional {
            3int
        } else {
            2int
        }) <= StructHierarchy::rules_start(path@, nn) by {
            lemma_rules_start_monotone(path@, q + 1, nn);
        }
        assert forall|q: int| 0 <= q < nn implies (#[trigger] rules@[
            StructHierarchy::rules_start(path@, q)]) is BeginStruct by {
            lemma_rules_start_bounds(path@, q);
            assert(rules@[StructHierarchy::rules_start(path@, q)]
                == pre[StructHierarchy::rules_start(path@, q)]);
        }
        assert forall|q: int| 0 <= q < nn implies ((#[trigger] rules@[
            StructHierarchy::rules_start(path@, q) + 1]) matches InsertionRule::InsertField {
            name,
        } && name@ == path@[q].name@) by {
            lemma_rules_start_bounds(path@, q);
            assert(rules@[StructHierarchy::rules_start(path@, q) + 1]
                == pre[StructHierarchy::rules_start(path@, q) + 1]);
        }
        assert forall|q: int| 0 <= q < nn && path@[q].is_optional implies (#[trigger] rules@[
            StructHierarchy::rules_start(path@, q) + 2]) is BeginOptional by {
            lemma_rules_start_bounds(path@, q);
            assert(rules@[StructHierarchy::rules_start(path@, q) + 2]
                == pre[StructHierarchy::rules_start(path@, q) + 2]);
        }
    }
    rules
}

proof fn lemma_rules_start_bounds(path: Seq<PathSegment>, j: int)
    requires
        0 <= j <= path.len(),
    ensures
        0 <= StructHierarchy::rules_start(path, j),
    decreases j,
{
    if j > 0 {
        lemma_rules_start_bounds(path, j - 1);
    }
}

proof fn lemma_rules_start_monotone(path: Seq<PathSegment>, a: int, b: int)
    requires
        0 <= a <= b <= path.len(),
    ensures
        StructHierarchy::rules_start(path, a) <= StructHierarchy::rules_start(path, b),
    decreases b - a,
{
    if a < b {
        lemma_rules_start_monotone(path, a, b - 1);
    }
}

/// The output-struct hierarchies of one cycler, grown by replaying its
/// stages' declared paths.
#[derive(Debug)]
pub struct CyclerStructs {
    pub main_outputs: StructHierarchy,
    pub additional_outputs: StructHierarchy,
    pub persistent_state: StructHierarchy,
}

impl Default for CyclerStructs {
    /// All three hierarchies start as empty structs.
    fn default() -> (r: Self)
        ensures
            StructHierarchy::is_empty_struct(r.main_outputs),
            StructHierarchy::is_empty_struct(r.additional_outputs),
            StructHierarchy::is_empty_struct(r.persistent_state),
    {
        CyclerStructs {
            main_outputs: StructHierarchy::default(),
            additional_outputs: StructHierarchy::default(),
            persistent_state: StructHierarchy::default(),
        }
    }
}

/// The hierarchies of the whole stack: the shared configuration and one
/// record per cycler module, keyed by the module's name.
#[derive(Debug)]
pub struct Structs {
    pub configuration: StructHierarchy,
    pub cycler_structs: Vec<(String, CyclerStructs)>,
}

impl Default for Structs {
    /// An empty configuration and no cycler records yet.
    fn default() -> (r: Self)
        ensures
            StructHierarchy::is_empty_struct(r.configuration),
            r.cycler_structs@.len() == 0,
    {
        Structs { configuration: StructHierarchy::default(), cycler_structs: Vec::new() }
    }
}

/// A copy of a string.
fn clone_string(s: &String) -> (r: String)
    ensures
        r@ == s@,
{
    s.clone()
}

} // verus!
