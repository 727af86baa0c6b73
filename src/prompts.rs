use vstd::prelude::*;

use crate::json::{field, member, same_shape, Json};
use crate::pagination::{next_cursor, page_keys, page_start, KeyedList, PAGE_SIZE};
use crate::params::pairs_view;
use crate::resources::pair_in;
use crate::text::{concat, is_blank, str_eq, trimmed};
use crate::types::prompt::{lists_prompt, Prompt, PromptArgument};

verus! {

/// The value given for argument `name`: that of the first pair with that name.
pub open spec fn arg_value(args: Seq<(Seq<char>, Seq<char>)>, name: Seq<char>) -> Option<Seq<char>>
    decreases args.len(),
{
    if args.len() == 0 {
        None
    } else if args[0].0 == name {
        Some(args[0].1)
    } else {
        arg_value(args.drop_first(), name)
    }
}

/// A required argument must be given, with a value that is not blank (an empty value is
/// blank).
pub open spec fn requirement_met(a: PromptArgument, args: Option<Seq<(Seq<char>, Seq<char>)>>) -> bool {
    a.required == Some(true) ==> match args {
        None => false,
        Some(xs) => match arg_value(xs, a.name@) {
            Some(v) => trimmed(v).len() > 0,
            None => false,
        },
    }
}

/// A required argument given with an empty value is not satisfied.
pub proof fn lemma_empty_required_value_rejected(a: PromptArgument, xs: Seq<(Seq<char>, Seq<char>)>)
    requires
        a.required == Some(true),
        arg_value(xs, a.name@) == Some(Seq::<char>::empty()),
    ensures
        !requirement_met(a, Some(xs)),
{
    assert(trimmed(Seq::<char>::empty()).len() == 0);
}

/// The refusal for required argument `a` when its requirement is not met: missing when it
/// is not given, empty when its value is blank.
pub open spec fn fault_message(a: PromptArgument, args: Option<Seq<(Seq<char>, Seq<char>)>>) -> Seq<char> {
    match args {
        Some(xs) => match arg_value(xs, a.name@) {
            Some(_) => "Required argument cannot be empty: "@ + a.name@,
            None => "Missing required argument: "@ + a.name@,
        },
        None => "Missing required argument: "@ + a.name@,
    }
}

/// Whether `decl` declares an argument called `name`.
pub open spec fn declares(decl: Seq<PromptArgument>, name: Seq<char>) -> bool {
    exists|i: int| 0 <= i < decl.len() && #[trigger] decl[i].name@ == name
}

/// Arguments satisfy a prompt that declares `decl`: every required argument is given and
/// not blank, and no argument is given that is not declared. A prompt that declares no
/// argument list takes anything.
pub open spec fn arguments_valid(
    decl: Option<Seq<PromptArgument>>,
    args: Option<Seq<(Seq<char>, Seq<char>)>>,
) -> bool {
    match decl {
        None => true,
        Some(d) => all_requirements_met(d, args) && all_declared(d, args),
    }
}

/// Every required argument of `d` is given and not blank.
pub open spec fn all_requirements_met(
    d: Seq<PromptArgument>,
    args: Option<Seq<(Seq<char>, Seq<char>)>>,
) -> bool {
    forall|i: int| 0 <= i < d.len() ==> requirement_met(#[trigger] d[i], args)
}

/// Every argument given is declared in `d`.
pub open spec fn all_declared(d: Seq<PromptArgument>, args: Option<Seq<(Seq<char>, Seq<char>)>>) -> bool {
    match args {
        Some(xs) => names_declared(d, xs),
        None => true,
    }
}

/// Every name in `xs` is declared in `d`.
pub open spec fn names_declared(d: Seq<PromptArgument>, xs: Seq<(Seq<char>, Seq<char>)>) -> bool {
    forall|j: int| 0 <= j < xs.len() ==> declares(d, #[trigger] xs[j].0)
}

/// The message of a refusal names the argument at fault: the first declared argument
/// whose requirement is not met, or, when all are met, the first argument given that is
/// not declared.
pub open spec fn names_fault(
    decl: Seq<PromptArgument>,
    args: Option<Seq<(Seq<char>, Seq<char>)>>,
    m: Seq<char>,
) -> bool {
    ||| (exists|i: int|
        0 <= i < decl.len() && (forall|k: int| 0 <= k < i ==> requirement_met(#[trigger] decl[k], args))
            && !requirement_met(#[trigger] decl[i], args) && m == fault_message(decl[i], args))
    ||| (all_requirements_met(decl, args) && args is Some && exists|j: int|
        0 <= j < args->Some_0.len() && (forall|l: int| 0 <= l < j ==> declares(decl, #[trigger] args->Some_0[l].0))
            && !declares(decl, #[trigger] args->Some_0[j].0) && m == "Unexpected argument: "@ + args->Some_0[j].0)
}

/// The value given for argument `name`.
pub fn find_arg<'a>(args: &'a Vec<(String, String)>, name: &str) -> (r: Option<&'a String>)
    ensures
        r matches Some(v) ==> arg_value(pairs_view(args@), name@) == Some(v@),
        r is None ==> arg_value(pairs_view(args@), name@) is None,
{
    let ghost all = pairs_view(args@);
    let mut i: usize = 0;
    assert(all.subrange(0, all.len() as int) =~= all);
    while i < args.len()
        invariant
            all == pairs_view(args@),
            i <= args@.len(),
            arg_value(all, name@) == arg_value(all.subrange(i as int, all.len() as int), name@),
        decreases args@.len() - i,
    {
        let ghost rest = all.subrange(i as int, all.len() as int);
        assert(rest[0] == all[i as int]);
        if str_eq(args[i].0.as_str(), name) {
            return Some(&args[i].1);
        }
        assert(rest.drop_first() =~= all.subrange(i + 1, all.len() as int));
        i = i + 1;
    }
    None
}

/// Annotation `key` of prompt `p`.
pub open spec fn annotation(p: Prompt, key: Seq<char>) -> Option<Json> {
    match p.annotations {
        Some(a) => field(a, key),
        None => None,
    }
}

/// Checks `arguments` against the arguments that `prompt` declares.
pub fn validate_arguments(prompt: &Prompt, arguments: &Option<Vec<(String, String)>>) -> (r: Result<
    (),
    String,
>)
    ensures
        r is Ok <==> arguments_valid(
            match prompt.arguments {
                Some(d) => Some(d@),
                None => None,
            },
            match arguments {
                Some(a) => Some(pairs_view(a@)),
                None => None,
            },
        ),
        r matches Err(m) ==> prompt.arguments is Some && names_fault(
            prompt.arguments->Some_0@,
            match arguments {
                Some(a) => Some(pairs_view(a@)),
                None => None,
            },
            m@,
        ),
{
    let decl = match &prompt.arguments {
        Some(d) => d,
        None => return Ok(()),
    };
    let ghost args_view = match arguments {
        Some(a) => Some(pairs_view(a@)),
        None => None::<Seq<(Seq<char>, Seq<char>)>>,
    };
    let mut i: usize = 0;
    while i < decl.len()
        invariant
            prompt.arguments == Some(*decl),
            i <= decl@.len(),
            forall|k: int| 0 <= k < i ==> requirement_met(#[trigger] decl@[k], args_view),
            args_view == match arguments {
                Some(a) => Some(pairs_view(a@)),
                None => None,
            },
        decreases decl@.len() - i,
    {
        let a = &decl[i];
        if a.required == Some(true) {
            match arguments {
                None => {
                    let m = concat("Missing required argument: ", a.name.as_str());
                    proof {
                        assert(!requirement_met(decl@[i as int], args_view));
                        assert(m@ == fault_message(decl@[i as int], args_view));
                        assert(!arguments_valid(Some(decl@), args_view)) by {
                            let d = decl@;
                            if arguments_valid(Some(d), args_view) {
                                assert(all_requirements_met(d, args_view));
                                assert(requirement_met(d[i as int], args_view));
                            }
                        }
                    }
                    return Err(m);
                },
                Some(args) => match find_arg(args, a.name.as_str()) {
                    None => {
                        let m = concat("Missing required argument: ", a.name.as_str());
                        assert(m@ == "Missing required argument: "@ + decl@[i as int].name@);
                        assert(!requirement_met(decl@[i as int], args_view));
                        assert(m@ == fault_message(decl@[i as int], args_view));
                        return Err(m);
                    },
                    Some(v) => {
                        if is_blank(v.as_str()) {
                            let m = concat("Required argument cannot be empty: ", a.name.as_str());
                            assert(m@ == "Required argument cannot be empty: "@ + decl@[i as int].name@);
                            assert(!requirement_met(decl@[i as int], args_view));
                            assert(m@ == fault_message(decl@[i as int], args_view));
                            return Err(m);
                        }
                    },
                },
            }
        }
        i = i + 1;
    }
    match arguments {
        None => {},
        Some(args) => {
            let mut j: usize = 0;
            while j < args.len()
                invariant
                    prompt.arguments == Some(*decl),
                    *arguments == Some(*args),
                    args_view == Some(pairs_view(args@)),
                    forall|k: int| 0 <= k < decl@.len() ==> requirement_met(#[trigger] decl@[k], args_view),
                    j <= args@.len(),
                    forall|k: int|
                        0 <= k < j ==> declares(decl@, #[trigger] pairs_view(args@)[k].0),
                decreases args@.len() - j,
            {
                let mut found = false;
                let mut k: usize = 0;
                while k < decl.len()
                    invariant
                        j < args@.len(),
                        k <= decl@.len(),
                        found ==> declares(decl@, pairs_view(args@)[j as int].0),
                        !found ==> forall|x: int| 0 <= x < k ==> decl@[x].name@ != args@[j as int].0@,
                    decreases decl@.len() - k,
                {
                    if str_eq(decl[k].name.as_str(), args[j].0.as_str()) {
                        found = true;
                    }
                    k = k + 1;
                }
                if !found {
                    let m = concat("Unexpected argument: ", args[j].0.as_str());
                    proof {
                        assert(m@ == "Unexpected argument: "@ + pairs_view(args@)[j as int].0);
                        assert(!declares(decl@, pairs_view(args@)[j as int].0));
                        let xs = pairs_view(args@);
                        assert(0 <= j < xs.len() && m@ == "Unexpected argument: "@ + xs[j as int].0);
                        assert(!arguments_valid(Some(decl@), args_view)) by {
                            if arguments_valid(Some(decl@), args_view) {
                                assert(all_declared(decl@, args_view));
                                assert(args_view == Some(xs));
                                assert(names_declared(decl@, xs));
                                assert(declares(decl@, xs[j as int].0));
                            }
                        }
                        assert(all_requirements_met(decl@, args_view));
                        assert(forall|l: int| 0 <= l < j ==> declares(decl@, #[trigger] xs[l].0));
                        assert(names_fault(decl@, args_view, m@));
                    }
                    return Err(m);
                }
                j = j + 1;
            }
        },
    }
    Ok(())
}

/// The registered prompts, keyed by name, and the prompt arguments that have a completion
/// provider.
pub struct PromptManager {
    pub prompts: KeyedList<Prompt>,
    /// Pairs of prompt name and argument name.
    pub completion_providers: Vec<(String, String)>,
}

impl PromptManager {
    pub open spec fn wf(&self) -> bool {
        &&& self.prompts.wf()
        &&& forall|i: int|
            0 <= i < self.prompts.entries@.len() ==> #[trigger] self.prompts.entries@[i].0@
                == self.prompts.entries@[i].1.name@
    }

    pub open spec fn names(&self) -> Seq<Seq<char>> {
        self.prompts.keys()
    }

    pub fn new() -> (r: Self)
        ensures
            r.wf(),
            r.names().len() == 0,
            r.completion_providers@.len() == 0,
    {
        PromptManager { prompts: KeyedList::new(), completion_providers: Vec::new() }
    }

    /// Registers `prompt`, replacing a prompt of the same name. Returns whether one was
    /// replaced.
    pub fn register_prompt(&mut self, prompt: Prompt) -> (replaced: bool)
        requires
            old(self).wf(),
        ensures
            final(self).wf(),
            replaced == old(self).prompts.has(prompt.name@),
            final(self).prompts.has(prompt.name@),
            final(self).prompts.lookup(prompt.name@) == prompt,
            forall|k: Seq<char>|
                k != prompt.name@ ==> final(self).prompts.has(k) == old(self).prompts.has(k),
            forall|k: Seq<char>|
                k != prompt.name@ && #[trigger] old(self).prompts.has(k) ==> final(self).prompts.lookup(k)
                    == old(self).prompts.lookup(k),
            final(self).completion_providers == old(self).completion_providers,
    {
        let key = prompt.name.clone();
        let ghost p = prompt;
        let replaced = self.prompts.insert(key, prompt);
        proof {
            let ps = self.prompts;
            assert forall|i: int| 0 <= i < ps.entries@.len() implies #[trigger] ps.entries@[i].0@
                == ps.entries@[i].1.name@ by {
                ps.lemma_index_of(i);
                let k = ps.entries@[i].0@;
                if k != p.name@ {
                    let o = old(self).prompts;
                    let j = o.index_of(k);
                    o.lemma_index_of(j);
                    assert(o.entries@[j].0@ == o.entries@[j].1.name@);
                }
            }
        }
        replaced
    }

    /// Position of the prompt called `name`.
    pub fn find_prompt(&self, name: &str) -> (r: Option<usize>)
        requires
            self.wf(),
        ensures
            r is None <==> !self.prompts.has(name@),
            r matches Some(i) ==> i < self.prompts.entries@.len() && self.prompts.entries@[i as int].1
                == self.prompts.lookup(name@) && self.prompts.entries@[i as int].1.name@ == name@,
    {
        self.prompts.find(name)
    }

    /// Records that argument `arg_name` of prompt `prompt_name` has a completion provider.
    pub fn register_completion_provider(&mut self, prompt_name: &str, arg_name: &str)
        requires
            old(self).wf(),
        ensures
            final(self).wf(),
            pair_in(final(self).completion_providers@, prompt_name@, arg_name@),
            forall|p: Seq<char>, a: Seq<char>|
                (p != prompt_name@ || a != arg_name@) ==> pair_in(
                    final(self).completion_providers@,
                    p,
                    a,
                ) == pair_in(old(self).completion_providers@, p, a),
            final(self).prompts == old(self).prompts,
    {
        if self.has_completion_provider(prompt_name, arg_name) {
            return;
        }
        let ghost before = self.completion_providers@;
        let e = (prompt_name.to_owned(), arg_name.to_owned());
        let ghost ge = e;
        self.completion_providers.push(e);
        proof {
            assert forall|p: Seq<char>, a: Seq<char>| true implies #[trigger] pair_in(
                self.completion_providers@,
                p,
                a,
            ) == (pair_in(before, p, a) || (ge.0@ == p && ge.1@ == a)) by {
                crate::resources::lemma_pair_in_push(before, ge, p, a);
            }
        }
    }

    /// Whether argument `arg_name` of prompt `prompt_name` has a completion provider.
    pub fn has_completion_provider(&self, prompt_name: &str, arg_name: &str) -> (r: bool)
        ensures
            r == pair_in(self.completion_providers@, prompt_name@, arg_name@),
    {
        let mut i: usize = 0;
        while i < self.completion_providers.len()
            invariant
                i <= self.completion_providers@.len(),
                forall|j: int|
                    0 <= j < i ==> !(#[trigger] self.completion_providers@[j].0@ == prompt_name@
                        && self.completion_providers@[j].1@ == arg_name@),
            decreases self.completion_providers@.len() - i,
        {
            if str_eq(self.completion_providers[i].0.as_str(), prompt_name) && str_eq(
                self.completion_providers[i].1.as_str(),
                arg_name,
            ) {
                return true;
            }
            i = i + 1;
        }
        false
    }

    /// Sets annotation `key` of prompt `name` to `value`; refused for an unknown prompt.
    pub fn add_annotation(&mut self, name: &str, key: &str, value: Json) -> (r: Result<(), String>)
        requires
            old(self).wf(),
        ensures
            final(self).wf(),
            r is Ok <==> old(self).prompts.has(name@),
            r is Err ==> *final(self) == *old(self),
            r is Ok ==> final(self).prompts.has(name@) && annotation(final(self).prompts.lookup(name@), key@)
                == Some(value),
            r is Ok ==> forall|k: Seq<char>|
                k != key@ ==> annotation(final(self).prompts.lookup(name@), k) == annotation(
                    old(self).prompts.lookup(name@),
                    k,
                ),
            forall|k: Seq<char>| k != name@ ==> final(self).prompts.has(k) == old(self).prompts.has(k),
            forall|k: Seq<char>|
                k != name@ && #[trigger] old(self).prompts.has(k) ==> final(self).prompts.lookup(k)
                    == old(self).prompts.lookup(k),
    {
        let ghost before = *self;
        let mut prompt = match self.prompts.remove(name) {
            Some(p) => p,
            None => return Err(concat("Prompt not found: ", name)),
        };
        proof {
            let i = before.prompts.index_of(name@);
            before.prompts.lemma_index_of(i);
            assert(before.prompts.entries@[i].0@ == before.prompts.entries@[i].1.name@);
        }
        let ghost old_prompt = prompt;
        let mut entries = match prompt.annotations.take() {
            Some(Json::Object(es)) => es,
            _ => Vec::new(),
        };
        assert(forall|k: Seq<char>| #![auto] old_prompt.annotations is None ==> member(entries@, k) is None);
        crate::json::set_member(&mut entries, key, value);
        prompt.annotations = Some(Json::Object(entries));
        let ghost new_prompt = prompt;
        let k = prompt.name.clone();
        self.prompts.insert(k, prompt);
        proof {
            let ps = self.prompts;
            assert forall|i: int| 0 <= i < ps.entries@.len() implies #[trigger] ps.entries@[i].0@
                == ps.entries@[i].1.name@ by {
                ps.lemma_index_of(i);
                let kk = ps.entries@[i].0@;
                if kk != name@ {
                    let o = before.prompts;
                    let j = o.index_of(kk);
                    o.lemma_index_of(j);
                    assert(o.entries@[j].0@ == o.entries@[j].1.name@);
                }
            }
        }
        Ok(())
    }

    /// A copy of annotation `key` of prompt `name`, `None` when it is not set; refused for an
    /// unknown prompt.
    pub fn get_annotation(&self, name: &str, key: &str) -> (r: Result<Option<Json>, String>)
        requires
            self.wf(),
        ensures
            r is Ok <==> self.prompts.has(name@),
            r matches Ok(Some(v)) ==> (annotation(self.prompts.lookup(name@), key@) matches Some(a)
                && same_shape(a, v)),
            self.prompts.has(name@) && annotation(self.prompts.lookup(name@), key@) is Some ==> r is Ok
                && r->Ok_0 is Some,
            r is Ok && annotation(self.prompts.lookup(name@), key@) is None ==> r == Ok::<
                Option<Json>,
                String,
            >(None),
    {
        let i = match self.prompts.find(name) {
            Some(i) => i,
            None => return Err(concat("Prompt not found: ", name)),
        };
        match &self.prompts.entries[i].1.annotations {
            Some(a) => match a {
                Json::Object(_) => match a.get(key) {
                    Some(v) => Ok(Some(v.copy_nested(crate::json::MAX_DEPTH))),
                    None => Ok(None),
                },
                _ => Ok(None),
            },
            None => Ok(None),
        }
    }

    /// The page of prompts after `cursor`, in name order, and the cursor of the next page.
    pub fn list_prompts(&self, cursor: &str) -> (r: (Vec<Json>, String))
        requires
            self.wf(),
        ensures
            r.0@.len() == page_keys(self.names(), cursor@, PAGE_SIZE as nat).len(),
            forall|i: int|
                0 <= i < r.0@.len() ==> lists_prompt(
                    self.prompts.entries@[page_start(self.names(), cursor@) + i].1,
                    #[trigger] r.0@[i],
                ),
            r.1@ == next_cursor(self.names(), cursor@, PAGE_SIZE as nat),
    {
        let (start, end, next) = self.prompts.page(cursor, PAGE_SIZE);
        let mut out: Vec<Json> = Vec::new();
        let mut i = start;
        while i < end
            invariant
                start <= i <= end,
                end <= self.prompts.entries@.len(),
                out@.len() == i - start,
                forall|j: int|
                    0 <= j < out@.len() ==> lists_prompt(
                        self.prompts.entries@[start + j].1,
                        #[trigger] out@[j],
                    ),
            decreases end - i,
        {
            out.push(self.prompts.entries[i].1.to_json());
            i = i + 1;
        }
        (out, next)
    }
}

} // verus!
