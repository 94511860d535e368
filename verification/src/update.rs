//! The update-expression builder.
//!
//! A partial-update request is turned into the minimal set of attribute
//! assignments: one set-clause per present field, nothing for absent fields,
//! and a signalled no-op when every field is absent — the caller must then
//! skip the write altogether. Structured fields are assigned as one nested
//! value; there is no field-level merge inside them.

use vstd::prelude::*;

use crate::attr::AttrValue;
use crate::attr::ValueView;
use crate::attr::clone_string_vec;
use crate::attr::lookup;
use crate::codec::encode_prefs_doc;
use crate::codec::lemma_attr_names;
use crate::codec::prefs_doc_of;
use crate::models::UpdateProfileRequest;
use crate::models::UpdateRequestV;

verus! {

/// One `SET` assignment: a name placeholder bound to an attribute name, and
/// a value placeholder bound to the value to store.
pub struct SetClause {
    pub name_placeholder: String,
    pub attr_name: String,
    pub value_placeholder: String,
    pub value: AttrValue,
}

/// Ghost form of [`SetClause`].
pub struct SetClauseV {
    pub name_placeholder: Seq<char>,
    pub attr_name: Seq<char>,
    pub value_placeholder: Seq<char>,
    pub value: ValueView,
}

impl View for SetClause {
    type V = SetClauseV;

    open spec fn view(&self) -> SetClauseV {
        SetClauseV {
            name_placeholder: self.name_placeholder@,
            attr_name: self.attr_name@,
            value_placeholder: self.value_placeholder@,
            value: self.value@,
        }
    }
}

/// The ghost form of a clause list.
pub open spec fn clauses_view(cs: Seq<SetClause>) -> Seq<SetClauseV> {
    cs.map_values(|c: SetClause| c@)
}

/// A complete mutation descriptor: the ordered clauses and the assembled
/// `SET <clause>, <clause>, ...` expression.
pub struct UpdateMutation {
    pub clauses: Vec<SetClause>,
    pub expression: String,
}

/// The clauses a partial-update request gives rise to, in a fixed order:
/// name, interests, study preferences; absent fields contribute nothing.
pub open spec fn update_clauses(r: UpdateRequestV) -> Seq<SetClauseV> {
    (match r.name {
        Some(n) => seq![
            SetClauseV {
                name_placeholder: "#n"@,
                attr_name: "name"@,
                value_placeholder: ":name"@,
                value: ValueView::S(n),
            },
        ],
        None => Seq::empty(),
    }) + (match r.interests {
        Some(v) => seq![
            SetClauseV {
                name_placeholder: "#i"@,
                attr_name: "interests"@,
                value_placeholder: ":interests"@,
                value: ValueView::L(v),
            },
        ],
        None => Seq::empty(),
    }) + (match r.study_preferences {
        Some(p) => seq![
            SetClauseV {
                name_placeholder: "#sp"@,
                attr_name: "study_preferences"@,
                value_placeholder: ":study_preferences"@,
                value: ValueView::M(prefs_doc_of(p)),
            },
        ],
        None => Seq::empty(),
    })
}

/// Whether a request carries an assignment for the attribute `k`.
pub open spec fn touches(r: UpdateRequestV, k: Seq<char>) -> bool {
    (r.name is Some && k == "name"@) || (r.interests is Some && k == "interests"@) || (
    r.study_preferences is Some && k == "study_preferences"@)
}

/// What a lookup finds after a clause list has been applied, last clause
/// winning.
pub open spec fn lookup_after(
    item: Seq<(Seq<char>, ValueView)>,
    cs: Seq<SetClauseV>,
    k: Seq<char>,
) -> Option<ValueView>
    decreases cs.len(),
{
    if cs.len() == 0 {
        lookup(item, k)
    } else if cs.last().attr_name == k {
        Some(cs.last().value)
    } else {
        lookup_after(item, cs.drop_last(), k)
    }
}

/// The rendered text of one clause.
pub open spec fn clause_text(c: SetClauseV) -> Seq<char> {
    c.name_placeholder + " = "@ + c.value_placeholder
}

/// The assembled expression: `SET ` and the clause texts separated by
/// commas.
pub open spec fn render_set(cs: Seq<SetClauseV>) -> Seq<char>
    decreases cs.len(),
{
    if cs.len() == 0 {
        "SET "@
    } else if cs.len() == 1 {
        "SET "@ + clause_text(cs[0])
    } else {
        render_set(cs.drop_last()) + ", "@ + clause_text(cs.last())
    }
}

/// A partial update never clobbers what it does not name, and stores
/// exactly the present fields: after its clauses are applied, an attribute
/// the request does not touch reads as before, and each present field reads
/// as the requested value (structured fields as one nested document).
pub proof fn lemma_update_effect(item: Seq<(Seq<char>, ValueView)>, r: UpdateRequestV)
    ensures
        forall|k: Seq<char>|
            !touches(r, k) ==> #[trigger] lookup_after(item, update_clauses(r), k) == lookup(
                item,
                k,
            ),
        r.name matches Some(n) ==> lookup_after(item, update_clauses(r), "name"@) == Some(
            ValueView::S(n),
        ),
        r.interests matches Some(v) ==> lookup_after(item, update_clauses(r), "interests"@)
            == Some(ValueView::L(v)),
        r.study_preferences matches Some(p) ==> lookup_after(
            item,
            update_clauses(r),
            "study_preferences"@,
        ) == Some(ValueView::M(prefs_doc_of(p))),
{
    lemma_attr_names();
    reveal_strlit("name");
    reveal_strlit("interests");
    reveal_strlit("study_preferences");
    let cs = update_clauses(r);
    assert forall|k: Seq<char>| true implies #[trigger] lookup_after(item, cs, k) == (if touches(
        r,
        k,
    ) {
        if r.study_preferences is Some && k == "study_preferences"@ {
            Some(ValueView::M(prefs_doc_of(r.study_preferences->0)))
        } else if r.interests is Some && k == "interests"@ {
            Some(ValueView::L(r.interests->0))
        } else {
            Some(ValueView::S(r.name->0))
        }
    } else {
        lookup(item, k)
    }) by {
        let nc = match r.name {
            Some(n) => seq![
                SetClauseV {
                    name_placeholder: "#n"@,
                    attr_name: "name"@,
                    value_placeholder: ":name"@,
                    value: ValueView::S(n),
                },
            ],
            None => Seq::<SetClauseV>::empty(),
        };
        let ic = match r.interests {
            Some(v) => seq![
                SetClauseV {
                    name_placeholder: "#i"@,
                    attr_name: "interests"@,
                    value_placeholder: ":interests"@,
                    value: ValueView::L(v),
                },
            ],
            None => Seq::<SetClauseV>::empty(),
        };
        let pc = match r.study_preferences {
            Some(p) => seq![
                SetClauseV {
                    name_placeholder: "#sp"@,
                    attr_name: "study_preferences"@,
                    value_placeholder: ":study_preferences"@,
                    value: ValueView::M(prefs_doc_of(p)),
                },
            ],
            None => Seq::<SetClauseV>::empty(),
        };
        assert(cs == nc + ic + pc);
        assert(lookup_after(item, nc + ic + pc, k) == lookup_after(item, nc + ic, k) || (
        r.study_preferences is Some && k == "study_preferences"@)) by {
            if r.study_preferences is Some {
                assert((nc + ic + pc).last() == pc[0]);
                assert((nc + ic + pc).drop_last() =~= nc + ic);
            } else {
                assert(nc + ic + pc =~= nc + ic);
            }
        }
        if r.study_preferences is Some && k == "study_preferences"@ {
            assert((nc + ic + pc).last() == pc[0]);
            assert(lookup_after(item, cs, k) == Some(
                ValueView::M(prefs_doc_of(r.study_preferences->0)),
            ));
        } else {
            if r.study_preferences is Some {
                assert((nc + ic + pc).drop_last() =~= nc + ic);
            } else {
                assert(nc + ic + pc =~= nc + ic);
            }
            assert(lookup_after(item, cs, k) == lookup_after(item, nc + ic, k));
            if r.interests is Some && k == "interests"@ {
                assert((nc + ic).last() == ic[0]);
                assert(lookup_after(item, nc + ic, k) == Some(ValueView::L(r.interests->0)));
            } else {
                if r.interests is Some {
                    assert((nc + ic).drop_last() =~= nc);
                } else {
                    assert(nc + ic =~= nc);
                }
                assert(lookup_after(item, nc + ic, k) == lookup_after(item, nc, k));
                if r.name is Some && k == "name"@ {
                    assert(nc.last() == nc[0]);
                    assert(lookup_after(item, nc, k) == Some(ValueView::S(r.name->0)));
                } else {
                    if r.name is Some {
                        assert(nc.drop_last() =~= Seq::<SetClauseV>::empty());
                        assert(lookup_after(item, nc, k) == lookup_after(
                            item,
                            Seq::<SetClauseV>::empty(),
                            k,
                        ));
                    }
                    assert(lookup_after(item, nc, k) == lookup(item, k));
                }
            }
        }
    }
}

/// `created_at` is immutable after creation: no partial update ever
/// assigns it, so it reads as before under any request's clauses.
pub proof fn lemma_created_at_immutable(
    item: Seq<(Seq<char>, ValueView)>,
    r: UpdateRequestV,
)
    ensures
        lookup_after(item, update_clauses(r), "created_at"@) == lookup(item, "created_at"@),
{
    lemma_attr_names();
    assert(!touches(r, "created_at"@));
    lemma_update_effect(item, r);
}

/// Build the minimal mutation for a partial update, or signal a no-op when
/// every field is absent.
pub fn build_update(req: &UpdateProfileRequest) -> (r: Option<UpdateMutation>)
    ensures
        r is None <==> (req.name is None && req.interests is None
            && req.study_preferences is None),
        r matches Some(m) ==> clauses_view(m.clauses@) == update_clauses(req@)
            && m.expression@ == render_set(update_clauses(req@)),
{
    let mut clauses: Vec<SetClause> = Vec::new();
    if let Some(n) = &req.name {
        clauses.push(
            SetClause {
                name_placeholder: String::from_str("#n"),
                attr_name: String::from_str("name"),
                value_placeholder: String::from_str(":name"),
                value: AttrValue::S(n.clone()),
            },
        );
    }
    if let Some(v) = &req.interests {
        clauses.push(
            SetClause {
                name_placeholder: String::from_str("#i"),
                attr_name: String::from_str("interests"),
                value_placeholder: String::from_str(":interests"),
                value: AttrValue::L(clone_string_vec(v)),
            },
        );
    }
    if let Some(p) = &req.study_preferences {
        clauses.push(
            SetClause {
                name_placeholder: String::from_str("#sp"),
                attr_name: String::from_str("study_preferences"),
                value_placeholder: String::from_str(":study_preferences"),
                value: AttrValue::M(encode_prefs_doc(p)),
            },
        );
    }
    proof {
        assert(clauses_view(clauses@) =~= update_clauses(req@));
    }
    if clauses.is_empty() {
        return None;
    }
    let ghost cv = update_clauses(req@);
    let mut expression = String::from_str("SET ");
    let mut i: usize = 0;
    while i < clauses.len()
        invariant
            i <= clauses.len(),
            clauses_view(clauses@) == cv,
            cv.len() == clauses.len(),
            i == 0 ==> expression@ == "SET "@,
            i > 0 ==> expression@ == render_set(cv.take(i as int)),
        decreases clauses.len() - i,
    {
        if i > 0 {
            expression.append(", ");
        }
        expression.append(clauses[i].name_placeholder.as_str());
        expression.append(" = ");
        expression.append(clauses[i].value_placeholder.as_str());
        proof {
            assert(cv[i as int] == clauses@[i as int]@);
            if i == 0 {
                assert(cv.take(1)[0] == cv[0]);
                assert(expression@ =~= render_set(cv.take(1)));
            } else {
                assert(cv.take(i + 1).drop_last() =~= cv.take(i as int));
                assert(cv.take(i + 1).last() == cv[i as int]);
                assert(cv.take(i + 1).len() >= 2);
                assert(expression@ =~= render_set(cv.take(i + 1)));
            }
        }
        i = i + 1;
    }
    proof {
        assert(cv.take(cv.len() as int) =~= cv);
    }
    Some(UpdateMutation { clauses, expression })
}

} // verus!
