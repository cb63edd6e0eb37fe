use vstd::prelude::*;
use vstd::string::StringExecFns;

verus! {

/// The file body for a username list: each name's characters, then one
/// newline, in list order; nothing before, between or after beyond that.
pub open spec fn spec_render(names: Seq<Seq<char>>) -> Seq<char>
    decreases names.len(),
{
    if names.len() == 0 {
        Seq::empty()
    } else {
        names[0] + seq!['\n'] + spec_render(names.drop_first())
    }
}

/// Appending one more name appends its characters and one newline.
pub proof fn lemma_render_push(names: Seq<Seq<char>>, x: Seq<char>)
    ensures
        spec_render(names.push(x)) == spec_render(names) + x + seq!['\n'],
    decreases names.len(),
{
    if names.len() == 0 {
        assert(names.push(x)[0] == x);
        assert(names.push(x).drop_first() =~= names);
        assert(x + seq!['\n'] + spec_render(names) =~= spec_render(names) + x + seq!['\n']);
    } else {
        assert(names.push(x)[0] == names[0]);
        assert(names.push(x).drop_first() =~= names.drop_first().push(x));
        lemma_render_push(names.drop_first(), x);
        assert(names[0] + seq!['\n'] + (spec_render(names.drop_first()) + x + seq!['\n'])
            =~= names[0] + seq!['\n'] + spec_render(names.drop_first()) + x + seq!['\n']);
    }
}

/// The text whose bytes the output file receives, one username per line.
pub fn render_lines(usernames: &Vec<String>) -> (r: String)
    ensures
        r@ == spec_render(usernames.deep_view()),
{
    let mut out = String::new();
    proof {
        assert(out@ =~= spec_render(usernames.deep_view().take(0)));
    }
    for i in 0..usernames.len()
        invariant
            out@ == spec_render(usernames.deep_view().take(i as int)),
    {
        out.append(usernames[i].as_str());
        out.append("\n");
        proof {
            reveal_strlit("\n");
            assert("\n"@ =~= seq!['\n']);
            assert(usernames.deep_view()[i as int] == usernames@[i as int]@);
            assert(usernames.deep_view().take(i + 1)
                =~= usernames.deep_view().take(i as int).push(usernames.deep_view()[i as int]));
            lemma_render_push(usernames.deep_view().take(i as int), usernames.deep_view()[i as int]);
        }
    }
    proof {
        assert(usernames.deep_view().take(usernames.len() as int) =~= usernames.deep_view());
    }
    out
}

} // verus!
