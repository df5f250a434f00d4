//! Prompt engineering for typo fixing: a few-shot template that always ends
//! in an `Output:` marker anchoring the extractor's stop logic.

use vstd::prelude::*;
use crate::chars::{starts_with, ends_with};

verus! {

/// The fixed instruction line opening every prompt, blank line included.
pub open spec fn prompt_header() -> Seq<char> {
    "Fix typos in these sentences:\n\n"@
}

/// The label put before a flawed sentence.
pub open spec fn input_label() -> Seq<char> {
    "Input: "@
}

/// The label put before a corrected sentence, newline included.
pub open spec fn output_label() -> Seq<char> {
    "\nOutput: "@
}

/// The marker the whole prompt ends with, newline included.
pub open spec fn final_marker() -> Seq<char> {
    "\nOutput:"@
}

/// One worked example as it appears in the prompt:
/// `Input: {flawed}\nOutput: {corrected}\n\n`.
pub open spec fn spec_example_block(e: (Seq<char>, Seq<char>)) -> Seq<char> {
    input_label() + e.0 + output_label() + e.1 + "\n\n"@
}

/// All example blocks, in order.
pub open spec fn spec_example_blocks(es: Seq<(Seq<char>, Seq<char>)>) -> Seq<char>
    decreases es.len(),
{
    if es.len() == 0 {
        Seq::empty()
    } else {
        spec_example_block(es[0]) + spec_example_blocks(es.drop_first())
    }
}

/// The full prompt for a given example list and input text.
pub open spec fn spec_build_prompt(es: Seq<(Seq<char>, Seq<char>)>, input: Seq<char>) -> Seq<
    char,
> {
    prompt_header() + spec_example_blocks(es) + input_label() + input + final_marker()
}

/// The default example pairs the template starts with.
pub open spec fn default_examples() -> Seq<(Seq<char>, Seq<char>)> {
    seq![
        ("I beleive this is teh answer."@, "I believe this is the answer."@),
        ("She recieved her degre yesterday."@, "She received her degree yesterday."@),
        ("The resturant serves good food."@, "The restaurant serves good food."@),
    ]
}

/// Template for typo-fixing prompts with few-shot examples.
pub struct PromptTemplate {
    examples: Vec<(String, String)>,
}

impl PromptTemplate {
    /// The example pairs as sequences of character sequences.
    pub closed spec fn examples_view(&self) -> Seq<(Seq<char>, Seq<char>)> {
        self.examples@.map_values(|p: (String, String)| (p.0@, p.1@))
    }

    /// Create a new prompt template holding the default few-shot examples.
    pub fn new() -> (r: Self)
        ensures
            r.examples_view() == default_examples(),
    {
        let mut examples: Vec<(String, String)> = Vec::new();
        examples.push(
            (
                String::from_str("I beleive this is teh answer."),
                String::from_str("I believe this is the answer."),
            ),
        );
        examples.push(
            (
                String::from_str("She recieved her degre yesterday."),
                String::from_str("She received her degree yesterday."),
            ),
        );
        examples.push(
            (
                String::from_str("The resturant serves good food."),
                String::from_str("The restaurant serves good food."),
            ),
        );
        let r = Self { examples };
        proof {
            assert(r.examples_view() =~= default_examples());
        }
        r
    }

    /// Create a typo-correction prompt for the given input text.
    pub fn create_correction_prompt(&self, input_text: &str) -> (p: String)
        ensures
            p@ == spec_build_prompt(self.examples_view(), input_text@),
    {
        self.create_few_shot_prompt(input_text)
    }

    /// Create a typo-correction prompt with the few-shot examples spelled out.
    pub fn create_few_shot_prompt(&self, input_text: &str) -> (p: String)
        ensures
            p@ == spec_build_prompt(self.examples_view(), input_text@),
    {
        let mut p = String::from_str("Fix typos in these sentences:\n\n");
        let mut i: usize = 0;
        let n = self.examples.len();
        while i < n
            invariant
                n == self.examples.len(),
                0 <= i <= n,
                p@ == prompt_header() + spec_example_blocks(self.examples_view().take(i as int)),
            decreases n - i,
        {
            p.append("Input: ");
            p.append(self.examples[i].0.as_str());
            p.append("\nOutput: ");
            p.append(self.examples[i].1.as_str());
            p.append("\n\n");
            proof {
                lemma_blocks_take_snoc(self.examples_view(), i as int);
                assert(p@ == prompt_header() + spec_example_blocks(
                    self.examples_view().take(i + 1),
                ));
            }
            i += 1;
        }
        proof {
            assert(self.examples_view().take(n as int) =~= self.examples_view());
        }
        p.append("Input: ");
        p.append(input_text);
        p.append("\nOutput:");
        proof {
            assert(p@ == spec_build_prompt(self.examples_view(), input_text@));
        }
        p
    }

    /// Add a custom example pair at the end of the template.
    pub fn add_example(&mut self, input_with_typos: String, corrected_output: String)
        ensures
            final(self).examples_view() == old(self).examples_view().push(
                (input_with_typos@, corrected_output@),
            ),
    {
        let ghost pair = (input_with_typos@, corrected_output@);
        self.examples.push((input_with_typos, corrected_output));
        proof {
            assert(self.examples_view() =~= old(self).examples_view().push(pair));
        }
    }

    /// Remove every example from the template.
    pub fn clear_examples(&mut self)
        ensures
            final(self).examples_view() == Seq::<(Seq<char>, Seq<char>)>::empty(),
    {
        self.examples.clear();
        proof {
            assert(self.examples_view() =~= Seq::<(Seq<char>, Seq<char>)>::empty());
        }
    }

    /// How many examples the template currently holds.
    pub fn example_count(&self) -> (n: usize)
        ensures
            n == self.examples_view().len(),
    {
        self.examples.len()
    }
}

impl Default for PromptTemplate {
    /// The default template equals a freshly created one.
    fn default() -> (r: Self)
        ensures
            r.examples_view() == default_examples(),
    {
        Self::new()
    }
}

/// Taking one more example extends the blocks by exactly that example's block.
pub proof fn lemma_blocks_take_snoc(es: Seq<(Seq<char>, Seq<char>)>, i: int)
    requires
        0 <= i < es.len(),
    ensures
        spec_example_blocks(es.take(i + 1)) == spec_example_blocks(es.take(i)) + spec_example_block(
            es[i],
        ),
    decreases i,
{
    if i == 0 {
        assert(es.take(1).drop_first() =~= Seq::<(Seq<char>, Seq<char>)>::empty());
        assert(es.take(0) =~= Seq::<(Seq<char>, Seq<char>)>::empty());
        assert(es.take(1)[0] == es[0]);
        assert(spec_example_blocks(Seq::<(Seq<char>, Seq<char>)>::empty()) == Seq::<
            char,
        >::empty());
        assert(spec_example_blocks(es.take(1)) == spec_example_block(es.take(1)[0])
            + spec_example_blocks(es.take(1).drop_first()));
        assert(spec_example_blocks(es.take(1)) == spec_example_block(es[0]) + Seq::<
            char,
        >::empty());
        assert(spec_example_block(es[0]) + Seq::<char>::empty() =~= spec_example_block(es[0]));
        assert(Seq::<char>::empty() + spec_example_block(es[0]) =~= spec_example_block(es[0]));
    } else {
        let tail = es.drop_first();
        lemma_blocks_take_snoc(tail, i - 1);
        assert(es.take(i + 1).drop_first() =~= tail.take(i));
        assert(es.take(i).drop_first() =~= tail.take(i - 1));
        assert(es.take(i + 1)[0] == es[0]);
        assert(es.take(i)[0] == es[0]);
        assert(tail[i - 1] == es[i]);
        assert(spec_example_blocks(es.take(i + 1)) == spec_example_block(es[0])
            + spec_example_blocks(tail.take(i)));
        assert(spec_example_blocks(es.take(i)) == spec_example_block(es[0])
            + spec_example_blocks(tail.take(i - 1)));
        assert(spec_example_block(es[0]) + (spec_example_blocks(tail.take(i - 1))
            + spec_example_block(es[i])) =~= (spec_example_block(es[0]) + spec_example_blocks(
            tail.take(i - 1),
        )) + spec_example_block(es[i]));
    }
}

/// The prompt always opens with the fixed instruction line and always ends
/// with `Input: {input}\nOutput:`, for every example list, the empty one
/// included.
pub proof fn lemma_prompt_structure(es: Seq<(Seq<char>, Seq<char>)>, input: Seq<char>)
    ensures
        starts_with(spec_build_prompt(es, input), prompt_header()),
        ends_with(spec_build_prompt(es, input), input_label() + input + final_marker()),
{
    let p = spec_build_prompt(es, input);
    let h = prompt_header();
    let tail = input_label() + input + final_marker();
    assert(p.subrange(0, h.len() as int) =~= h);
    assert(p =~= (h + spec_example_blocks(es)) + tail);
    assert(p.subrange(p.len() - tail.len(), p.len() as int) =~= tail);
}

} // verus!
