//! The tool registry: named capabilities and their declarations.
//!
//! The registry maps tool names to machine-readable declarations that are
//! sent with every model request. Registering a name that is already taken
//! replaces the prior entry; no uniqueness error is raised.

use vstd::prelude::*;

verus! {

/// A machine-readable tool declaration: what the model may call.
#[derive(Debug)]
pub struct ToolDecl {
    /// The tool's name, used for dispatch.
    pub name: String,
    /// Free-text description of what the tool does.
    pub description: String,
    /// A schema describing the expected argument shape.
    pub parameters: String,
}

/// The mathematical content of a [`ToolDecl`].
pub struct ToolDeclV {
    /// The tool's name.
    pub name: Seq<char>,
    /// Free-text description of what the tool does.
    pub description: Seq<char>,
    /// A schema describing the expected argument shape.
    pub parameters: Seq<char>,
}

impl View for ToolDecl {
    type V = ToolDeclV;

    open spec fn view(&self) -> ToolDeclV {
        ToolDeclV {
            name: self.name@,
            description: self.description@,
            parameters: self.parameters@,
        }
    }
}

impl DeepView for ToolDecl {
    type V = ToolDeclV;

    open spec fn deep_view(&self) -> ToolDeclV {
        self.view()
    }
}

impl Clone for ToolDecl {
    /// Cloning keeps the declaration's contents.
    fn clone(&self) -> (r: Self)
        ensures
            r == *self,
    {
        ToolDecl {
            name: self.name.clone(),
            description: self.description.clone(),
            parameters: self.parameters.clone(),
        }
    }
}

/// The position of the declaration with the given name, or `-1` when none
/// exists.
pub open spec fn find_decl(s: Seq<ToolDeclV>, name: Seq<char>) -> int
    decreases s.len(),
{
    if s.len() == 0 {
        -1
    } else if s[0].name == name {
        0
    } else {
        let r = find_decl(s.drop_first(), name);
        if r < 0 {
            -1
        } else {
            1 + r
        }
    }
}

/// `find_decl` finds the first declaration with the name, and fails exactly
/// when none has it.
pub proof fn lemma_find_decl(s: Seq<ToolDeclV>, name: Seq<char>)
    ensures
        find_decl(s, name) == -1 ==> forall|j: int|
            0 <= j < s.len() ==> (#[trigger] s[j]).name != name,
        find_decl(s, name) >= 0 ==> {
            &&& find_decl(s, name) < s.len()
            &&& s[find_decl(s, name)].name == name
            &&& forall|j: int| 0 <= j < find_decl(s, name) ==> (#[trigger] s[j]).name != name
        },
    decreases s.len(),
{
    if s.len() == 0 {
    } else if s[0].name == name {
    } else {
        lemma_find_decl(s.drop_first(), name);
        let r = find_decl(s.drop_first(), name);
        if r < 0 {
            assert forall|j: int| 0 <= j < s.len() implies (#[trigger] s[j]).name != name by {
                if j > 0 {
                    assert(s.drop_first()[j - 1].name != name);
                }
            }
        } else {
            assert forall|j: int| 0 <= j < find_decl(s, name) implies (#[trigger] s[j]).name
                != name by {
                if j > 0 {
                    assert(s.drop_first()[j - 1].name != name);
                }
            }
        }
    }
}

/// Registration is last-write-wins: a declaration under a taken name
/// replaces the prior entry, a new name is appended.
pub open spec fn register_spec(s: Seq<ToolDeclV>, d: ToolDeclV) -> Seq<ToolDeclV> {
    let k = find_decl(s, d.name);
    if k >= 0 {
        s.update(k, d)
    } else {
        s.push(d)
    }
}

/// Registering a declaration makes its name found, and keeps every name
/// that was found before.
pub proof fn lemma_register_effect(s: Seq<ToolDeclV>, d: ToolDeclV)
    ensures
        find_decl(register_spec(s, d), d.name) >= 0,
        forall|nm: Seq<char>|
            find_decl(s, nm) >= 0 ==> #[trigger] find_decl(register_spec(s, d), nm) >= 0,
{
    lemma_find_decl(s, d.name);
    let r = register_spec(s, d);
    let k = find_decl(s, d.name);
    assert(find_decl(r, d.name) >= 0) by {
        lemma_find_decl(r, d.name);
        if find_decl(r, d.name) == -1 {
            if k >= 0 {
                assert(r[k].name == d.name);
            } else {
                assert(r[s.len() as int].name == d.name);
            }
        }
    }
    assert forall|nm: Seq<char>|
        find_decl(s, nm) >= 0 implies #[trigger] find_decl(r, nm) >= 0 by {
        lemma_find_decl(s, nm);
        lemma_find_decl(r, nm);
        let j = find_decl(s, nm);
        if find_decl(r, nm) == -1 {
            if k >= 0 {
                if j == k {
                    assert(s[k].name == d.name);
                    assert(r[k].name == nm);
                } else {
                    assert(r[j].name == nm);
                }
            } else {
                assert(r[j].name == nm);
            }
        }
    }
}

/// The registry after registering a batch of declarations in order.
pub open spec fn register_all_spec(s: Seq<ToolDeclV>, ds: Seq<ToolDeclV>) -> Seq<ToolDeclV>
    decreases ds.len(),
{
    if ds.len() == 0 {
        s
    } else {
        register_all_spec(register_spec(s, ds.first()), ds.drop_first())
    }
}

proof fn lemma_register_all_snoc(s: Seq<ToolDeclV>, ds: Seq<ToolDeclV>, d: ToolDeclV)
    ensures
        register_all_spec(s, ds.push(d)) == register_spec(register_all_spec(s, ds), d),
    decreases ds.len(),
{
    let whole = ds.push(d);
    assert(whole.len() > 0);
    assert(register_all_spec(s, whole) == register_all_spec(
        register_spec(s, whole.first()),
        whole.drop_first(),
    ));
    if ds.len() == 0 {
        assert(whole.first() == d);
        assert(whole.drop_first() =~= Seq::<ToolDeclV>::empty());
        assert(register_all_spec(register_spec(s, d), Seq::<ToolDeclV>::empty()) == register_spec(
            s,
            d,
        ));
        assert(register_all_spec(s, ds) == s);
    } else {
        assert(whole.first() == ds.first());
        assert(whole.drop_first() =~= ds.drop_first().push(d));
        lemma_register_all_snoc(register_spec(s, ds.first()), ds.drop_first(), d);
        assert(register_all_spec(s, ds) == register_all_spec(
            register_spec(s, ds.first()),
            ds.drop_first(),
        ));
    }
}

/// The name-to-declaration registry the orchestrator advertises to the
/// model.
#[derive(Debug)]
pub struct ToolManager {
    tools: Vec<ToolDecl>,
}

impl ToolManager {
    /// The registered declarations, in registration order.
    pub closed spec fn decls(&self) -> Seq<ToolDeclV> {
        self.tools.deep_view()
    }

    /// Whether a tool of this name is registered.
    pub open spec fn is_registered(&self, name: Seq<char>) -> bool {
        find_decl(self.decls(), name) >= 0
    }

    /// Creates an empty registry.
    pub fn new() -> (r: ToolManager)
        ensures
            r.decls() == Seq::<ToolDeclV>::empty(),
    {
        let r = ToolManager { tools: Vec::new() };
        proof {
            assert(r.decls() =~= Seq::<ToolDeclV>::empty());
        }
        r
    }

    /// Registers one tool under its declared name; a prior entry under the
    /// same name is replaced.
    pub fn add_tool(&mut self, tool: ToolDecl)
        ensures
            final(self).decls() == register_spec(old(self).decls(), tool@),
    {
        let ghost pre = self.decls();
        let ghost dv = tool@;
        proof {
            lemma_find_decl(pre, dv.name);
        }
        let n = self.tools.len();
        let mut k: usize = 0;
        loop
            invariant
                0 <= k <= n,
                n == self.tools@.len(),
                pre == self.decls(),
                forall|j: int| 0 <= j < k ==> (#[trigger] pre[j]).name != dv.name,
                tool@ == dv,
            ensures
                0 <= k <= n,
                pre == self.decls(),
                forall|j: int| 0 <= j < k ==> (#[trigger] pre[j]).name != dv.name,
                k < n ==> pre[k as int].name == dv.name,
                tool@ == dv,
            decreases n - k,
        {
            if k >= n {
                break ;
            }
            proof {
                assert(pre[k as int] == self.tools@[k as int].deep_view());
            }
            if self.tools[k].name.eq(&tool.name) {
                break ;
            }
            k = k + 1;
        }
        if k < n {
            proof {
                assert(find_decl(pre, dv.name) == k) by {
                    if find_decl(pre, dv.name) < 0 {
                        assert(pre[k as int].name != dv.name);
                    } else {
                        if find_decl(pre, dv.name) < k {
                            assert(pre[find_decl(pre, dv.name)].name != dv.name);
                        }
                        if find_decl(pre, dv.name) > k {
                            assert(pre[k as int].name != dv.name);
                        }
                    }
                }
            }
            vstd::pervasive::VecAdditionalExecFns::set(&mut self.tools, k, tool);
            proof {
                assert forall|j: int| 0 <= j < pre.len() && j != k implies #[trigger] self.decls()[j]
                    == pre[j] by {
                    assert(self.decls()[j] == self.tools@[j].deep_view());
                }
                assert(self.decls()[k as int] == dv);
                assert(self.decls() =~= register_spec(pre, dv));
            }
        } else {
            proof {
                assert(find_decl(pre, dv.name) == -1) by {
                    if find_decl(pre, dv.name) >= 0 {
                        assert(pre[find_decl(pre, dv.name)].name != dv.name);
                    }
                }
            }
            self.tools.push(tool);
            proof {
                assert forall|j: int| 0 <= j < pre.len() implies #[trigger] self.decls()[j]
                    == pre[j] by {
                    assert(self.decls()[j] == self.tools@[j].deep_view());
                }
                assert(self.decls()[pre.len() as int] == dv);
                assert(self.decls() =~= register_spec(pre, dv));
            }
        }
    }

    /// Registers a batch of tools in order.
    pub fn add_tools(&mut self, tools: Vec<ToolDecl>)
        ensures
            final(self).decls() == register_all_spec(old(self).decls(), tools.deep_view()),
    {
        let n = tools.len();
        let mut i: usize = 0;
        proof {
            assert(tools.deep_view().take(0) =~= Seq::<ToolDeclV>::empty());
        }
        while i < n
            invariant
                0 <= i <= n,
                n == tools@.len(),
                self.decls() == register_all_spec(old(self).decls(), tools.deep_view().take(i as int)),
            decreases n - i,
        {
            let item = tools[i].clone();
            proof {
                assert(item.deep_view() == tools.deep_view()[i as int]);
            }
            self.add_tool(item);
            proof {
                let dv = tools.deep_view();
                lemma_register_all_snoc(old(self).decls(), dv.take(i as int), dv[i as int]);
                assert(dv.take(i as int).push(dv[i as int]) =~= dv.take(i + 1));
            }
            i = i + 1;
        }
        proof {
            assert(tools.deep_view().take(n as int) =~= tools.deep_view());
        }
    }

    /// The declarations sent with a model request, for every registered
    /// tool.
    pub fn get_tools(&self) -> (r: Vec<ToolDecl>)
        ensures
            r.deep_view() == self.decls(),
    {
        let mut result: Vec<ToolDecl> = Vec::new();
        let n = self.tools.len();
        let mut i: usize = 0;
        while i < n
            invariant
                0 <= i <= n,
                n == self.tools@.len(),
                result@.len() == i,
                result.deep_view() == self.decls().take(i as int),
            decreases n - i,
        {
            let ghost pre = result.deep_view();
            let item = self.tools[i].clone();
            proof {
                assert(item.deep_view() == self.decls()[i as int]);
            }
            result.push(item);
            proof {
                assert forall|j: int| 0 <= j < pre.len() implies #[trigger] result.deep_view()[j]
                    == pre[j] by {
                    assert(result.deep_view()[j] == result@[j].deep_view());
                }
                assert(result.deep_view() =~= self.decls().take(i + 1));
            }
            i = i + 1;
        }
        proof {
            assert(self.decls().take(n as int) =~= self.decls());
        }
        result
    }
}

} // verus!
