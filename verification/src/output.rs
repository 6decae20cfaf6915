use vstd::prelude::*;

verus! {

/// A sink for printed lines that keeps them, in order.
#[derive(Debug)]
pub struct Recorder {
    pub outputted: Vec<String>,
}

impl View for Recorder {
    type V = Seq<Seq<char>>;

    open spec fn view(&self) -> Seq<Seq<char>> {
        Seq::new(self.outputted@.len(), |i: int| self.outputted@[i]@)
    }
}

impl Recorder {
    pub fn new() -> (recorder: Recorder)
        ensures
            recorder@ == Seq::<Seq<char>>::empty(),
    {
        let recorder = Recorder { outputted: Vec::new() };
        assert(recorder@ =~= Seq::<Seq<char>>::empty());
        recorder
    }

    /// Takes the text that a value was rendered as.
    pub fn output_value(&mut self, rendered: String)
        ensures
            final(self)@ == old(self)@.push(rendered@),
    {
        self.outputted.push(rendered);
        assert(self@ =~= old(self)@.push(rendered@));
    }
}

} // verus!
