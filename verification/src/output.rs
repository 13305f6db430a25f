//! The lines written by a command.
use crate::tline::{TLine, TStringModel};
use vstd::prelude::*;

verus! {

/// A line of the output of a command.
pub struct CommandOutputLine {
    pub content: TLine,
}

impl View for CommandOutputLine {
    type V = Seq<TStringModel>;

    open spec fn view(&self) -> Seq<TStringModel> {
        self.content@
    }
}

impl Clone for CommandOutputLine {
    fn clone(&self) -> (r: Self)
        ensures
            r@ == self@,
    {
        CommandOutputLine { content: self.content.clone() }
    }
}

/// The content of lines of output.
pub open spec fn contents(lines: Seq<CommandOutputLine>) -> Seq<Seq<TStringModel>> {
    lines.map_values(|line: CommandOutputLine| line@)
}

/// The output of a command.
pub struct CommandOutput {
    pub lines: Vec<CommandOutputLine>,
}

impl View for CommandOutput {
    type V = Seq<Seq<TStringModel>>;

    open spec fn view(&self) -> Seq<Seq<TStringModel>> {
        contents(self.lines@)
    }
}

impl Default for CommandOutput {
    fn default() -> (r: Self)
        ensures
            r@ == Seq::<Seq<TStringModel>>::empty(),
    {
        let r = CommandOutput { lines: Vec::new() };
        assert(r@ =~= Seq::<Seq<TStringModel>>::empty());
        r
    }
}

impl Clone for CommandOutput {
    fn clone(&self) -> (r: Self)
        ensures
            r@ == self@,
    {
        let mut lines: Vec<CommandOutputLine> = Vec::new();
        for i in 0..self.lines.len()
            invariant
                contents(lines@) == self@.take(i as int),
        {
            let ghost before = lines@;
            lines.push(self.lines[i].clone());
            assert(contents(lines@) =~= contents(before).push(self.lines[i as int]@));
            assert(self@.take(i + 1) =~= self@.take(i as int).push(self@[i as int]));
        }
        assert(self@.take(self@.len() as int) =~= self@);
        CommandOutput { lines }
    }
}

impl CommandOutput {
    /// Adds a line at the end.
    pub fn push(&mut self, line: CommandOutputLine)
        ensures
            final(self)@ == old(self)@.push(line@),
    {
        self.lines.push(line);
        assert(self@ =~= old(self)@.push(line@));
    }

    /// The number of lines.
    pub fn len(&self) -> (r: usize)
        ensures
            r == self@.len(),
    {
        self.lines.len()
    }

    /// Puts the lines in the reverse order.
    pub fn reverse(&mut self)
        ensures
            final(self)@ == old(self)@.reverse(),
    {
        let mut lines: Vec<CommandOutputLine> = Vec::new();
        let ghost all = self@;
        loop
            invariant
                self@ == all.take(self@.len() as int),
                self@.len() <= all.len(),
                contents(lines@) == all.skip(self@.len() as int).reverse(),
            ensures
                contents(lines@) == all.reverse(),
            decreases self@.len(),
        {
            let ghost n = self@.len();
            match self.lines.pop() {
                Some(line) => {
                    assert(line@ == all.take(n as int)[n - 1]);
                    let ghost before = lines@;
                    lines.push(line);
                    assert(contents(lines@) =~= contents(before).push(line@));
                    assert(all.skip(n - 1).reverse() =~= all.skip(n as int).reverse().push(
                        all[n - 1],
                    ));
                    assert(self@ =~= all.take(n - 1));
                },
                None => {
                    assert(all.skip(0) =~= all);
                    break;
                },
            }
        }
        self.lines = lines;
    }
}

} // verus!
