use vstd::prelude::*;
use vstd::string::*;

verus! {

/// A local variable and the scope depth it was declared at.
#[derive(Debug, Clone)]
struct Local {
    name: String,
    depth: usize,
}

impl Local {
    fn new(name: String, depth: usize) -> (r: Self)
        ensures
            r.name == name,
            r.depth == depth,
    {
        Local { name, depth }
    }
}

/// The position of the last entry named `name` among `names`, or -1.
pub open spec fn last_index_of(names: Seq<Seq<char>>, name: Seq<char>) -> int
    decreases names.len(),
{
    if names.len() == 0 {
        -1
    } else if names.last() == name {
        names.len() - 1
    } else {
        last_index_of(names.drop_last(), name)
    }
}

/// The text output of one function, with its local variables.
#[derive(Debug)]
pub struct FuncCompiler {
    output: String,
    locals: Vec<Local>,
    scope_depth: usize,
    break_stack: Vec<Vec<usize>>,
    continue_stack: Vec<Vec<usize>>,
}

impl FuncCompiler {
    /// The text emitted so far.
    pub closed spec fn text(self) -> Seq<char> {
        self.output@
    }

    /// The names of the local variables, in the order they were added.
    pub closed spec fn local_names(self) -> Seq<Seq<char>> {
        self.locals@.map_values(|l: Local| l.name@)
    }

    /// The scope depth of each local variable, in the order they were added.
    pub closed spec fn local_depths(self) -> Seq<usize> {
        self.locals@.map_values(|l: Local| l.depth)
    }

    /// The current scope depth.
    pub closed spec fn depth(self) -> usize {
        self.scope_depth
    }

    pub fn new(func_name: String) -> (r: Self)
        ensures
            r.text() == Seq::<char>::empty(),
            r.local_names().len() == 0,
            r.depth() == 0,
    {
        let r = FuncCompiler {
            output: String::new(),
            locals: Vec::new(),
            scope_depth: 0,
            break_stack: Vec::new(),
            continue_stack: Vec::new(),
        };
        assert(r.local_names() =~= Seq::<Seq<char>>::empty());
        r
    }

    /// The text emitted and the number of local variables.
    pub fn end(self) -> (r: (String, usize))
        ensures
            r.0@ == self.text(),
            r.1 == self.local_names().len(),
    {
        (self.output, self.locals.len())
    }

    /// Emits a line of text.
    pub fn emit(&mut self, line: &str)
        ensures
            final(self).text() == old(self).text() + line@ + "\n"@,
            final(self).local_names() == old(self).local_names(),
            final(self).depth() == old(self).depth(),
    {
        self.output.append(line);
        self.output.append("\n");
    }

    /// Adds a local variable at the current scope depth.
    pub fn add_local(&mut self, name: String)
        ensures
            final(self).local_names() == old(self).local_names().push(name@),
            final(self).local_depths() == old(self).local_depths().push(old(self).depth()),
            final(self).text() == old(self).text(),
            final(self).depth() == old(self).depth(),
    {
        let ghost n = name@;
        self.locals.push(Local::new(name, self.scope_depth));
        assert(self.local_names() =~= old(self).local_names().push(n));
        assert(self.local_depths() =~= old(self).local_depths().push(old(self).depth()));
    }

    /// The slot of the local variable `name` (the one added last of that
    /// name), as a byte.
    pub fn resolve_local(&self, name: &str) -> (r: Option<u8>)
        ensures
            last_index_of(self.local_names(), name@) < 0 ==> r is None,
            last_index_of(self.local_names(), name@) >= 0 ==> r == Some(
                last_index_of(self.local_names(), name@) as u8,
            ),
    {
        proof {
            broadcast use vstd::string::to_string_from_display_ensures_for_str;
        }
        let key = name.to_string();
        let mut i = self.locals.len();
        assert(self.local_names().subrange(0, i as int) =~= self.local_names());
        while i > 0
            invariant
                i <= self.locals@.len(),
                key@ == name@,
                last_index_of(self.local_names(), name@) == last_index_of(
                    self.local_names().subrange(0, i as int),
                    name@,
                ),
            decreases i,
        {
            let ghost s = self.local_names().subrange(0, i as int);
            assert(s.drop_last() =~= self.local_names().subrange(0, i - 1));
            if self.locals[i - 1].name == key {
                return Some((i - 1) as u8);
            }
            i -= 1;
        }
        None
    }

    /// The number of local variables.
    pub fn get_local_count(&self) -> (r: usize)
        ensures
            r == self.local_names().len(),
    {
        self.locals.len()
    }

    /// A variable added last resolves to its own slot.
    pub proof fn lemma_added_local_resolves(names: Seq<Seq<char>>, name: Seq<char>)
        ensures
            last_index_of(names.push(name), name) == names.len(),
    {
        assert(names.push(name).drop_last() =~= names);
    }
}

} // verus!
