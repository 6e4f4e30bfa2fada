use vstd::prelude::*;

use crate::text::{from_chars, push_chars, str_eq, to_chars};

verus! {

pub open spec fn is_ascii_alnum(c: char) -> bool {
    ('0' <= c && c <= '9') || ('A' <= c && c <= 'Z') || ('a' <= c && c <= 'z')
}

/// The label of a workspace's window: `workspace-` and the id with every
/// character that is not an ASCII letter or digit replaced by `-`.
pub open spec fn label_spec(id: Seq<char>) -> Seq<char> {
    "workspace-"@ + id.map_values(|c: char| if is_ascii_alnum(c) { c } else { '-' })
}

/// The label of the window that shows a workspace.
pub fn label_for(id: &str) -> (r: String)
    ensures
        r@ == label_spec(id@),
{
    proof {
        reveal_strlit("workspace-");
    }
    let cs = to_chars(id);
    let mut out = to_chars("workspace-");
    let ghost head = out@;
    let mut i: usize = 0;
    while i < cs.len()
        invariant
            i <= cs.len(),
            cs@ == id@,
            head == "workspace-"@,
            out@ == head + cs@.take(i as int).map_values(|c: char| if is_ascii_alnum(c) { c } else { '-' }),
        decreases cs.len() - i,
    {
        let c = cs[i];
        let keep = ('0' <= c && c <= '9') || ('A' <= c && c <= 'Z') || ('a' <= c && c <= 'z');
        out.push(if keep { c } else { '-' });
        assert(cs@.take(i + 1).map_values(|c: char| if is_ascii_alnum(c) { c } else { '-' }) =~= cs@.take(i as int).map_values(|c: char| if is_ascii_alnum(c) { c } else { '-' }).push(if is_ascii_alnum(c) { c } else { '-' }));
        i += 1;
    }
    assert(cs@.take(cs.len() as int) == cs@);
    from_chars(out.as_slice())
}

/// Which window shows which workspace: pairs of workspace id and window
/// label, one pair per workspace.
pub struct WindowWorkspaceState {
    windows: Vec<(String, String)>,
}

impl View for WindowWorkspaceState {
    type V = Seq<(String, String)>;

    /// The registered pairs of workspace id and window label.
    closed spec fn view(&self) -> Seq<(String, String)> {
        self.windows@
    }
}

/// Each workspace appears at most once.
pub open spec fn unique_keys(ws: Seq<(String, String)>) -> bool {
    forall|i: int, j: int| 0 <= i < j < ws.len() ==> ws[i].0@ != ws[j].0@
}

/// The label registered for a workspace.
pub open spec fn label_of_spec(ws: Seq<(String, String)>, workspace: Seq<char>) -> Option<Seq<char>>
    decreases ws.len(),
{
    if ws.len() == 0 {
        None
    } else if ws.last().0@ == workspace {
        Some(ws.last().1@)
    } else {
        label_of_spec(ws.drop_last(), workspace)
    }
}

proof fn lemma_label_of_found(ws: Seq<(String, String)>, workspace: Seq<char>, i: int)
    requires
        unique_keys(ws),
        0 <= i < ws.len(),
        ws[i].0@ == workspace,
    ensures
        label_of_spec(ws, workspace) == Some(ws[i].1@),
    decreases ws.len(),
{
    if i < ws.len() - 1 {
        assert(ws.last().0@ != workspace);
        assert(ws.drop_last()[i] == ws[i]);
        lemma_label_of_found(ws.drop_last(), workspace, i);
    }
}

proof fn lemma_label_of_none(ws: Seq<(String, String)>, workspace: Seq<char>)
    requires
        forall|i: int| 0 <= i < ws.len() ==> ws[i].0@ != workspace,
    ensures
        label_of_spec(ws, workspace) is None,
    decreases ws.len(),
{
    if ws.len() > 0 {
        lemma_label_of_none(ws.drop_last(), workspace);
    }
}

proof fn lemma_label_of_exists(ws: Seq<(String, String)>, workspace: Seq<char>)
    requires
        label_of_spec(ws, workspace) is Some,
    ensures
        exists|i: int| 0 <= i < ws.len() && ws[i].0@ == workspace && label_of_spec(ws, workspace) == Some(ws[i].1@),
    decreases ws.len(),
{
    if ws.last().0@ != workspace {
        lemma_label_of_exists(ws.drop_last(), workspace);
        let i = choose|i: int| 0 <= i < ws.drop_last().len() && ws.drop_last()[i].0@ == workspace && label_of_spec(ws.drop_last(), workspace) == Some(ws.drop_last()[i].1@);
        assert(ws[i] == ws.drop_last()[i]);
    }
}

impl WindowWorkspaceState {
    /// Each workspace has at most one window.
    #[verifier::type_invariant]
    spec fn well_formed(self) -> bool {
        unique_keys(self.windows@)
    }

    /// No window is registered.
    pub fn new() -> (r: WindowWorkspaceState)
        ensures
            r@ == Seq::<(String, String)>::empty(),
            forall|w: Seq<char>| label_of_spec(r@, w) is None,
    {
        WindowWorkspaceState { windows: Vec::new() }
    }

    /// The label of the window registered for a workspace.
    pub fn label_of(&self, workspace_id: &str) -> (r: Option<String>)
        ensures
            crate::text::opt_view(r) == label_of_spec(self@, workspace_id@),
    {
        proof {
            use_type_invariant(self);
        }
        let mut i: usize = 0;
        while i < self.windows.len()
            invariant
                i <= self.windows.len(),
                unique_keys(self.windows@),
                forall|j: int| 0 <= j < i ==> self.windows@[j].0@ != workspace_id@,
            decreases self.windows.len() - i,
        {
            if str_eq(self.windows[i].0.as_str(), workspace_id) {
                proof {
                    lemma_label_of_found(self.windows@, workspace_id@, i as int);
                }
                return Some(self.windows[i].1.clone());
            }
            i += 1;
        }
        proof {
            lemma_label_of_none(self.windows@, workspace_id@);
        }
        None
    }

    /// The pairs without the workspace's and, when given, without the
    /// label's, in order.
    fn retained(&self, workspace_id: &str, label: Option<&str>) -> (kept: Vec<(String, String)>)
        ensures
            unique_keys(kept@),
            forall|k: int| 0 <= k < kept@.len() ==> #[trigger] kept@[k].0@ != workspace_id@,
            forall|k: int| 0 <= k < kept@.len() ==> (label matches Some(l) ==> #[trigger] kept@[k].1@ != l@),
            forall|w: Seq<char>| w != workspace_id@ ==> label_of_spec(kept@, w) == (match label_of_spec(self@, w) {
                Some(x) => if label matches Some(l) && x == l@ { None } else { Some(x) },
                None => None,
            }),
    {
        proof {
            use_type_invariant(self);
        }
        let ghost ws0 = self.windows@;
        let mut kept: Vec<(String, String)> = Vec::new();
        let mut i: usize = 0;
        while i < self.windows.len()
            invariant
                i <= self.windows.len(),
                self.windows@ == ws0,
                unique_keys(ws0),
                forall|k: int| 0 <= k < kept.len() ==> exists|m: int| 0 <= m < i && #[trigger] kept@[k] == ws0[m],
                forall|a: int, b: int| 0 <= a < b < kept.len() ==> kept@[a].0@ != kept@[b].0@,
                forall|k: int| 0 <= k < kept.len() ==> #[trigger] kept@[k].0@ != workspace_id@,
                forall|k: int| 0 <= k < kept.len() ==> (label matches Some(l) ==> #[trigger] kept@[k].1@ != l@),
                forall|m: int| 0 <= m < i && ws0[m].0@ != workspace_id@ && !(label matches Some(l) && ws0[m].1@ == l@) ==> exists|k: int| 0 <= k < kept.len() && #[trigger] kept@[k] == ws0[m],
            decreases self.windows.len() - i,
        {
            let (k, l) = (&self.windows[i].0, &self.windows[i].1);
            let drop_key = str_eq(k.as_str(), workspace_id);
            let drop_label = match label {
                Some(x) => str_eq(l.as_str(), x),
                None => false,
            };
            if !drop_key && !drop_label {
                let ghost before = kept@;
                kept.push((k.clone(), l.clone()));
                proof {
                    assert(kept@.last() == ws0[i as int]);
                    assert forall|a: int, b: int| 0 <= a < b < kept.len() implies kept@[a].0@ != kept@[b].0@ by {
                        if b == kept.len() - 1 {
                            let m = choose|m: int| 0 <= m < i && #[trigger] before[a] == ws0[m];
                            assert(kept@[a] == before[a]);
                        } else {
                            assert(kept@[a] == before[a]);
                            assert(kept@[b] == before[b]);
                        }
                    }
                    assert forall|k2: int| 0 <= k2 < kept.len() implies exists|m: int| 0 <= m < i + 1 && #[trigger] kept@[k2] == ws0[m] by {
                        if k2 < before.len() {
                            assert(kept@[k2] == before[k2]);
                            let m = choose|m: int| 0 <= m < i && #[trigger] before[k2] == ws0[m];
                        } else {
                            assert(kept@[k2] == ws0[i as int]);
                        }
                    }
                    assert forall|m: int| 0 <= m < i + 1 && ws0[m].0@ != workspace_id@ && !(label matches Some(l) && ws0[m].1@ == l@) implies exists|k2: int| 0 <= k2 < kept.len() && #[trigger] kept@[k2] == ws0[m] by {
                        if m < i {
                            let k2 = choose|k2: int| 0 <= k2 < before.len() && #[trigger] before[k2] == ws0[m];
                            assert(kept@[k2] == before[k2]);
                        } else {
                            assert(kept@[kept.len() - 1] == ws0[m]);
                        }
                    }
                }
            }
            i += 1;
        }
        proof {
            assert forall|w: Seq<char>| w != workspace_id@ implies label_of_spec(kept@, w) == (match label_of_spec(ws0, w) {
                Some(x) => if label matches Some(l) && x == l@ { None } else { Some(x) },
                None => None::<Seq<char>>,
            }) by {
                if label_of_spec(ws0, w) is Some {
                    lemma_label_of_exists(ws0, w);
                    let m = choose|m: int| 0 <= m < ws0.len() && ws0[m].0@ == w && label_of_spec(ws0, w) == Some(ws0[m].1@);
                    if label matches Some(l) && ws0[m].1@ == l@ {
                        assert forall|k2: int| 0 <= k2 < kept.len() implies kept@[k2].0@ != w by {
                            let m2 = choose|m2: int| 0 <= m2 < ws0.len() && #[trigger] kept@[k2] == ws0[m2];
                            if m2 != m {
                                if m2 < m {
                                    assert(ws0[m2].0@ != ws0[m].0@);
                                } else {
                                    assert(ws0[m].0@ != ws0[m2].0@);
                                }
                            }
                        }
                        lemma_label_of_none(kept@, w);
                    } else {
                        let k2 = choose|k2: int| 0 <= k2 < kept.len() && #[trigger] kept@[k2] == ws0[m];
                        lemma_label_of_found(kept@, w, k2);
                    }
                } else {
                    assert forall|k2: int| 0 <= k2 < kept.len() implies kept@[k2].0@ != w by {
                        let m2 = choose|m2: int| 0 <= m2 < ws0.len() && #[trigger] kept@[k2] == ws0[m2];
                        if ws0[m2].0@ == w {
                            lemma_label_of_found(ws0, w, m2);
                        }
                    }
                    lemma_label_of_none(kept@, w);
                }
            }
        }
        kept
    }

    /// Registers the window `label` for a workspace, replacing its previous window.
    pub fn insert(&mut self, workspace_id: String, label: String)
        ensures
            label_of_spec(final(self)@, workspace_id@) == Some(label@),
            forall|w: Seq<char>| w != workspace_id@ ==> label_of_spec(final(self)@, w) == label_of_spec(old(self)@, w),
    {
        let ghost orig = self.windows@;
        let mut kept = self.retained(workspace_id.as_str(), None);
        let ghost before = kept@;
        let ghost key = workspace_id@;
        assert forall|w: Seq<char>| w != key implies label_of_spec(before, w) == label_of_spec(orig, w) by {
            match label_of_spec(orig, w) {
                Some(x) => {},
                None => {},
            }
        }
        kept.push((workspace_id, label));
        proof {
            assert(kept@.drop_last() == before);
            assert(kept@.last().0@ == key);
            assert forall|w: Seq<char>| w != key implies label_of_spec(kept@, w) == label_of_spec(before, w) by {}
            assert forall|i: int, j: int| 0 <= i < j < kept@.len() implies kept@[i].0@ != kept@[j].0@ by {
                if j == kept@.len() - 1 {
                    assert(before[i].0@ != key);
                } else {
                    assert(kept@[i] == before[i] && kept@[j] == before[j]);
                }
            }
        }
        self.windows = kept;
    }

    /// Forgets the window of a workspace.
    pub fn forget(&mut self, workspace_id: &str)
        ensures
            label_of_spec(final(self)@, workspace_id@) is None,
            forall|w: Seq<char>| w != workspace_id@ ==> label_of_spec(final(self)@, w) == label_of_spec(old(self)@, w),
    {
        let kept = self.retained(workspace_id, None);
        proof {
            lemma_label_of_none(kept@, workspace_id@);
        }
        self.windows = kept;
    }

    /// Registers the window `label` for a workspace: the window stops
    /// showing any other workspace, and the workspace's previous window is replaced.
    pub fn register(&mut self, workspace_id: String, label: String)
        ensures
            label_of_spec(final(self)@, workspace_id@) == Some(label@),
            forall|w: Seq<char>| w != workspace_id@ ==> label_of_spec(final(self)@, w) == (match label_of_spec(old(self)@, w) {
                Some(x) => if x == label@ { None } else { Some(x) },
                None => None,
            }),
    {
        let ghost orig = self.windows@;
        let ghost lab = label@;
        let mut kept = self.retained(workspace_id.as_str(), Some(label.as_str()));
        let ghost before = kept@;
        let ghost key = workspace_id@;
        assert forall|w: Seq<char>| w != key implies label_of_spec(before, w) == (match label_of_spec(orig, w) {
            Some(x) => if x == lab { None } else { Some(x) },
            None => None::<Seq<char>>,
        }) by {
            match label_of_spec(orig, w) {
                Some(x) => {},
                None => {},
            }
        }
        kept.push((workspace_id, label));
        proof {
            assert(kept@.drop_last() == before);
            assert(kept@.last().0@ == key);
            assert forall|w: Seq<char>| w != key implies label_of_spec(kept@, w) == label_of_spec(before, w) by {}
            assert forall|w: Seq<char>| w != key implies label_of_spec(kept@, w) == (match label_of_spec(orig, w) {
                Some(x) => if x == lab { None } else { Some(x) },
                None => None::<Seq<char>>,
            }) by {
                assert(label_of_spec(kept@, w) == label_of_spec(before, w));
            }
            assert forall|i: int, j: int| 0 <= i < j < kept@.len() implies kept@[i].0@ != kept@[j].0@ by {
                if j == kept@.len() - 1 {
                    assert(before[i].0@ != key);
                } else {
                    assert(kept@[i] == before[i] && kept@[j] == before[j]);
                }
            }
        }
        self.windows = kept;
    }
}

/// After a window is registered for a workspace, that workspace has that
/// window and no other workspace has it.
pub proof fn law_one_workspace_per_window(before: Seq<(String, String)>, after: Seq<(String, String)>, workspace: Seq<char>, label: Seq<char>)
    requires
        label_of_spec(after, workspace) == Some(label),
        forall|w: Seq<char>| w != workspace ==> label_of_spec(after, w) == (match label_of_spec(before, w) {
            Some(x) => if x == label { None } else { Some(x) },
            None => None,
        }),
    ensures
        forall|w: Seq<char>| label_of_spec(after, w) == Some(label) ==> w == workspace,
{
}

} // verus!
