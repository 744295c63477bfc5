use vstd::prelude::*;

verus! {

/// The fixed sentence that opens every assembled prompt.
pub open spec fn preamble() -> Seq<char> {
    "The following is a conversation between you and an AI assistant named Sky. Sky is helpful, creative, clever, and very friendly."@
}

/// One completed user turn inside the rendered dialogue.
pub open spec fn you_line(u: Seq<char>) -> Seq<char> {
    "You: "@ + u + "\n"@
}

/// One completed assistant turn inside the rendered dialogue.
pub open spec fn sky_line(a: Seq<char>) -> Seq<char> {
    "Sky: "@ + a + "\n"@
}

/// The open-ended cue for a final unpaired user entry: the assistant label
/// is left without text and without a trailing newline, so the completion
/// endpoint continues the text as the assistant.
pub open spec fn you_open(u: Seq<char>) -> Seq<char> {
    "You: "@ + u + "\nSky:"@
}

/// The rendered dialogue: history entries are paired two at a time in
/// order (even index: user, odd index: assistant); a final unpaired user
/// entry becomes the open cue. History is never truncated or windowed,
/// however long it grows.
pub open spec fn dialogue_of(h: Seq<Seq<char>>) -> Seq<char>
    decreases h.len(),
{
    if h.len() == 0 {
        Seq::empty()
    } else if h.len() == 1 {
        you_open(h[0])
    } else {
        you_line(h[0]) + sky_line(h[1]) + dialogue_of(h.skip(2))
    }
}

/// The full prompt: the preamble, one newline, then the rendered dialogue.
pub open spec fn prompt_of(h: Seq<Seq<char>>) -> Seq<char> {
    preamble() + "\n"@ + dialogue_of(h)
}

/// Rendering distributes over splitting the history after any whole
/// number of completed pairs.
pub proof fn lemma_dialogue_split(h: Seq<Seq<char>>, i: int)
    requires
        0 <= i <= h.len(),
        i % 2 == 0,
    ensures
        dialogue_of(h) == dialogue_of(h.take(i)) + dialogue_of(h.skip(i)),
    decreases i,
{
    if i == 0 {
        assert(h.take(0) =~= Seq::<Seq<char>>::empty());
        assert(h.skip(0) =~= h);
        assert(dialogue_of(h.take(0)) + dialogue_of(h.skip(0)) =~= dialogue_of(h));
    } else {
        lemma_dialogue_split(h.skip(2), i - 2);
        assert(h.skip(2).take(i - 2) =~= h.take(i).skip(2));
        assert(h.skip(2).skip(i - 2) =~= h.skip(i));
        assert(h.take(i)[0] == h[0]);
        assert(h.take(i)[1] == h[1]);
        assert(dialogue_of(h.take(i)) == you_line(h[0]) + sky_line(h[1]) + dialogue_of(h.take(i).skip(2)));
        assert(dialogue_of(h) =~= dialogue_of(h.take(i)) + dialogue_of(h.skip(i)));
    }
}

/// Law: a history with an even, positive number of entries renders to a
/// prompt that ends with the completed `Sky` line of its last entry,
/// newline included, never with the open cue.
pub proof fn lemma_prompt_ends_closed(h: Seq<Seq<char>>)
    requires
        h.len() > 0,
        h.len() % 2 == 0,
    ensures
        prompt_of(h) == prompt_of(h.take(h.len() - 2)) + you_line(h[h.len() - 2]) + sky_line(
            h.last(),
        ),
        prompt_of(h).len() > sky_line(h.last()).len(),
        prompt_of(h).skip(prompt_of(h).len() - sky_line(h.last()).len()) == sky_line(h.last()),
{
    let n = h.len() as int;
    lemma_dialogue_split(h, n - 2);
    let tail = h.skip(n - 2);
    assert(tail.skip(2) =~= Seq::<Seq<char>>::empty());
    assert(dialogue_of(tail) == you_line(tail[0]) + sky_line(tail[1]) + dialogue_of(tail.skip(2)));
    assert(you_line(tail[0]) + sky_line(tail[1]) + Seq::<char>::empty() =~= you_line(tail[0])
        + sky_line(tail[1]));
    assert(tail[0] == h[n - 2]);
    assert(tail[1] == h[n - 1]);
    assert(prompt_of(h) =~= prompt_of(h.take(n - 2)) + you_line(h[n - 2]) + sky_line(h.last()));
    let p = prompt_of(h);
    let s = sky_line(h.last());
    reveal_strlit("\n");
    assert(p.skip(p.len() - s.len()) =~= s);
}

/// Law: a history ending in an unpaired user entry renders to a prompt
/// that ends with exactly the open cue for that entry; the final
/// character is the colon of the bare assistant label, with no trailing
/// newline after it.
pub proof fn lemma_prompt_ends_open(h: Seq<Seq<char>>)
    requires
        h.len() % 2 == 1,
    ensures
        prompt_of(h) == prompt_of(h.take(h.len() - 1)) + you_open(h.last()),
        prompt_of(h).len() > you_open(h.last()).len(),
        prompt_of(h).skip(prompt_of(h).len() - you_open(h.last()).len()) == you_open(h.last()),
        prompt_of(h).last() == ':',
{
    let n = h.len() as int;
    lemma_dialogue_split(h, n - 1);
    let tail = h.skip(n - 1);
    assert(dialogue_of(tail) == you_open(tail[0]));
    assert(tail[0] == h.last());
    assert(prompt_of(h) =~= prompt_of(h.take(n - 1)) + you_open(h.last()));
    let p = prompt_of(h);
    let s = you_open(h.last());
    reveal_strlit("\n");
    assert(p.skip(p.len() - s.len()) =~= s);
    reveal_strlit("\nSky:");
    assert("\nSky:"@[4] == ':');
    assert(s.last() == ':');
}

/// Law: prompt assembly is a pure, deterministic function of the history
/// sequence alone; equal histories render to equal prompts, whatever else
/// differs between two clients.
pub proof fn lemma_prompt_deterministic(h1: Seq<Seq<char>>, h2: Seq<Seq<char>>)
    requires
        h1 == h2,
    ensures
        prompt_of(h1) == prompt_of(h2),
{
}

} // verus!
