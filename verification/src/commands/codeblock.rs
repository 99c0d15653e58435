//! `codeblock`: shows a snippet in a Lua code block, or how to write one.

use vstd::prelude::*;
use crate::embed::{block_field, fields_view, Embed};
use crate::text::{remove_all, remove_all_str};

verus! {

/// The arguments as text: a missing argument reads as empty.
pub open spec fn args_text(args: Seq<Option<String>>) -> Seq<Seq<char>> {
    args.map_values(|a: Option<String>| match a {
        Some(s) => s@,
        None => Seq::<char>::empty(),
    })
}

/// After reading `args`: whether the next argument names the language, the
/// language (Lua unless `-l` named another), and the source (each word
/// preceded by a space).
pub open spec fn codeblock_state(args: Seq<Seq<char>>) -> (bool, Seq<char>, Seq<char>)
    decreases args.len(),
{
    if args.len() == 0 {
        (false, "lua"@, Seq::<char>::empty())
    } else {
        let (diff, lang, src) = codeblock_state(args.drop_last());
        let a = args.last();
        if a.len() == 0 {
            (diff, lang, src)
        } else if a == "-l"@ {
            (true, lang, src)
        } else if diff {
            (false, a, src)
        } else {
            (diff, lang, src + " "@ + a)
        }
    }
}

/// The source with code fences and backticks taken out.
pub open spec fn clean_source(src: Seq<char>) -> Seq<char> {
    remove_all(remove_all(remove_all(src, "```lua"@), "```"@), "`"@)
}

/// The `SRC` field: the cleaned source in a fenced block of the language.
pub open spec fn source_block(args: Seq<Seq<char>>) -> Seq<char> {
    let (_, lang, src) = codeblock_state(args);
    "```"@ + lang + "\n"@ + clean_source(src) + "\n```"@
}

/// The fields of the example: the message to type, and what it shows.
pub open spec fn example_fields() -> Seq<(Seq<char>, Seq<char>, bool)> {
    seq![
        ("What your message should look like:"@, "```\n```lua\nfunction display(str)\n\tprint(str)\nend\n\ndisplay(\"Hello World!\")\n`\u{200B}``\n```"@, false),
        ("What your message will display as:"@, "```lua\nfunction display(str)\n\tprint(str)\nend\n\ndisplay(\"Hello World!\")\n```"@, false),
    ]
}

fn example_embed() -> (e: Embed)
    ensures
        e.title@ == "Codeblock Example"@,
        e.description matches Some(d) && d@ == "This is how to properly codeblock."@,
        fields_view(e.fields@) == example_fields(),
{
    let fields = vec![
        block_field(
            String::from_str("What your message should look like:"),
            String::from_str("```\n```lua\nfunction display(str)\n\tprint(str)\nend\n\ndisplay(\"Hello World!\")\n`\u{200B}``\n```"),
        ),
        block_field(
            String::from_str("What your message will display as:"),
            String::from_str("```lua\nfunction display(str)\n\tprint(str)\nend\n\ndisplay(\"Hello World!\")\n```"),
        ),
    ];
    let e = Embed {
        title: String::from_str("Codeblock Example"),
        description: Some(String::from_str("This is how to properly codeblock.")),
        fields,
    };
    assert(fields_view(e.fields@) =~= example_fields());
    e
}

/// The embed of `codeblock`: with no arguments, an example of a code block;
/// otherwise the author's snippet, `-l <language>` choosing the language.
pub fn codeblock(author: &str, args: &Vec<Option<String>>) -> (e: Embed)
    ensures
        args.len() == 0 ==> {
            &&& e.title@ == "Codeblock Example"@
            &&& e.description matches Some(d) && d@ == "This is how to properly codeblock."@
            &&& fields_view(e.fields@) == example_fields()
        },
        args.len() > 0 ==> {
            &&& e.title@ == "Codeblock for "@ + author@
            &&& e.description is None
            &&& fields_view(e.fields@) == seq![("SRC"@, source_block(args_text(args@)), false)]
        },
{
    if args.len() == 0 {
        return example_embed();
    }
    let mut diff_lang = false;
    let mut lang = String::from_str("lua");
    let mut src = String::new();
    let mut i: usize = 0;
    while i < args.len()
        invariant
            i <= args.len(),
            codeblock_state(args_text(args@).take(i as int)) == (diff_lang, lang@, src@),
        decreases args.len() - i,
    {
        let ghost t = args_text(args@);
        assert(t.take(i + 1).drop_last() =~= t.take(i as int));
        let arg: String = match &args[i] {
            Some(a) => a.clone(),
            None => String::new(),
        };
        assert(t.take(i + 1).last() == arg@);
        if !arg.as_str().is_empty() {
            if String::eq(&arg, &String::from_str("-l")) {
                diff_lang = true;
            } else if diff_lang {
                lang = arg;
                diff_lang = false;
            } else {
                src.append(" ");
                src.append(arg.as_str());
            }
        }
        i = i + 1;
    }
    assert(args_text(args@).take(args.len() as int) =~= args_text(args@));
    let s1 = remove_all_str(src.as_str(), "```lua");
    let s2 = remove_all_str(s1.as_str(), "```");
    let s3 = remove_all_str(s2.as_str(), "`");
    let mut block = String::from_str("```");
    block.append(lang.as_str());
    block.append("\n");
    block.append(s3.as_str());
    block.append("\n```");
    let mut title = String::from_str("Codeblock for ");
    title.append(author);
    let fields = vec![block_field(String::from_str("SRC"), block)];
    let e = Embed { title, description: None, fields };
    assert(fields_view(e.fields@) =~= seq![("SRC"@, source_block(args_text(args@)), false)]);
    e
}


proof fn lemma_remove_char_gone(s: Seq<char>, c: char)
    ensures
        !remove_all(s, seq![c]).contains(c),
    decreases s.len(),
{
    if s.len() > 0 {
        if s.take(1) == seq![c] {
            assert(s.skip(1) =~= s.drop_first());
            lemma_remove_char_gone(s.drop_first(), c);
        } else {
            lemma_remove_char_gone(s.drop_first(), c);
            assert(s.take(1) =~= seq![s[0]]);
            let r = remove_all(s, seq![c]);
            let rest = remove_all(s.drop_first(), seq![c]);
            assert(r =~= seq![s[0]] + rest);
            if r.contains(c) {
                let k = choose|k: int| 0 <= k < r.len() && r[k] == c;
                if k > 0 {
                    assert(rest[k - 1] == c);
                }
            }
        }
    }
}

/// The source shown by `codeblock` never holds a backtick, so it cannot
/// close the code block it is shown in.
pub proof fn lemma_source_has_no_backtick(src: Seq<char>)
    ensures
        !clean_source(src).contains('`'),
{
    reveal_strlit("`");
    assert("`"@ =~= seq!['`']);
    lemma_remove_char_gone(remove_all(remove_all(src, "```lua"@), "```"@), '`');
}


/// Reading one more word of source (not `-l`, not after `-l`) adds a space
/// and the word exactly as it was given: every character of the word,
/// line breaks included, is kept.
pub proof fn lemma_word_kept_verbatim(args: Seq<Seq<char>>, a: Seq<char>)
    requires
        a.len() > 0,
        a != "-l"@,
        !codeblock_state(args).0,
    ensures
        codeblock_state(args.push(a)) == (false, codeblock_state(args).1, codeblock_state(args).2 + " "@ + a),
{
    assert(args.push(a).drop_last() =~= args);
}

/// `-l` followed by a word makes that word the language, leaving the source
/// as it was; empty arguments change nothing.
pub proof fn lemma_language_option(args: Seq<Seq<char>>, w: Seq<char>)
    requires
        w.len() > 0,
        w != "-l"@,
    ensures
        codeblock_state(args.push("-l"@).push(w)) == (false, w, codeblock_state(args).2),
        codeblock_state(args.push(Seq::<char>::empty())) == codeblock_state(args),
{
    reveal_strlit("-l");
    assert(args.push("-l"@).push(w).drop_last() =~= args.push("-l"@));
    assert(args.push("-l"@).drop_last() =~= args);
    assert(args.push(Seq::<char>::empty()).drop_last() =~= args);
    assert("-l"@.len() == 2);
    let st = codeblock_state(args);
    assert(codeblock_state(args.push("-l"@)) == (true, st.1, st.2));
    assert(args.push("-l"@).push(w).last() == w);
}

proof fn lemma_remove_absent(s: Seq<char>, pat: Seq<char>)
    requires
        pat.len() > 0,
        !s.contains(pat[0]),
    ensures
        remove_all(s, pat) == s,
    decreases s.len(),
{
    if s.len() > 0 {
        assert(s.contains(s[0]));
        if pat.len() <= s.len() && s.take(pat.len() as int) == pat {
            assert(s.take(pat.len() as int)[0] == s[0]);
        }
        assert(!s.drop_first().contains(pat[0])) by {
            if s.drop_first().contains(pat[0]) {
                let k = choose|k: int| 0 <= k < s.drop_first().len() && s.drop_first()[k] == pat[0];
                assert(s[k + 1] == pat[0]);
            }
        }
        lemma_remove_absent(s.drop_first(), pat);
        assert(seq![s[0]] + s.drop_first() =~= s);
    }
}

/// Only backticks are taken out of the source: a source without backticks is
/// shown exactly as it was written.
pub proof fn lemma_plain_source_unchanged(src: Seq<char>)
    requires
        !src.contains('`'),
    ensures
        clean_source(src) == src,
{
    reveal_strlit("```lua");
    reveal_strlit("```");
    reveal_strlit("`");
    lemma_remove_absent(src, "```lua"@);
    lemma_remove_absent(src, "```"@);
    lemma_remove_absent(src, "`"@);
}

} // verus!
