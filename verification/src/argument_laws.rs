//! What holds of the options that a launch hands to the virtual machine.

use vstd::prelude::*;
use crate::arguments::{
    cleaned, cleaned_options, first_spaced, flag_then, lemma_first_spaced, module_flags,
    notices_on, Cleaned, NoticeView,
};

verus! {

/// Whether `s` holds no space.
pub open spec fn spaceless(s: Seq<char>) -> bool {
    forall|i: int| 0 <= i < s.len() ==> #[trigger] s[i] != ' '
}

/// No name of a module option holds a space.
pub proof fn lemma_module_flags_spaceless()
    ensures
        module_flags().len() == 9,
        forall|k: int| 0 <= k < 9 ==> spaceless(#[trigger] module_flags()[k]),
{
    reveal_strlit("--add-opens");
    reveal_strlit("--add-exports");
    reveal_strlit("--add-reads");
    reveal_strlit("--add-modules");
    reveal_strlit("--patch-module");
    reveal_strlit("--limit-modules");
    reveal_strlit("--module-path");
    reveal_strlit("--upgrade-module-path");
    reveal_strlit("--enable-native-access");
    assert(spaceless(module_flags()[0]));
    assert(spaceless(module_flags()[1]));
    assert(spaceless(module_flags()[2]));
    assert(spaceless(module_flags()[3]));
    assert(spaceless(module_flags()[4]));
    assert(spaceless(module_flags()[5]));
    assert(spaceless(module_flags()[6]));
    assert(spaceless(module_flags()[7]));
    assert(spaceless(module_flags()[8]));
}

/// Where an option writes the flag at index `j` with a space behind it, the
/// first flag that it writes so stands at `j` or before.
proof fn lemma_first_spaced_at_most(option: Seq<char>, flags: Seq<Seq<char>>, j: int)
    requires
        0 <= j < flags.len(),
        flag_then(option, flags[j], ' '),
    ensures
        first_spaced(option, flags) <= j,
    decreases flags.len(),
{
    if !flag_then(option, flags[0], ' ') {
        assert(flags.drop_first()[j - 1] == flags[j]);
        lemma_first_spaced_at_most(option, flags.drop_first(), j - 1);
    }
}

/// A module option whose value stands behind a space is rewritten with `=`
/// in place of that space, whatever the value: `flag value` becomes
/// `flag=value`, and nothing else of it changes.
pub proof fn lemma_module_option_rewritten(j: int, value: Seq<char>)
    requires
        0 <= j < module_flags().len(),
    ensures
        cleaned(module_flags()[j] + seq![' '] + value) == Cleaned::Rewritten(
            module_flags()[j] + seq!['='] + value,
        ),
{
    let flags = module_flags();
    let flag = flags[j];
    let option = flag + seq![' '] + value;
    lemma_module_flags_spaceless();
    assert(flag_then(option, flag, ' ')) by {
        assert(option.take(flag.len() as int) =~= flag);
    }
    lemma_first_spaced_at_most(option, flags, j);
    lemma_first_spaced(option, flags);
    let m = first_spaced(option, flags);
    let found = flags[m];
    assert(found.len() == flag.len()) by {
        assert(spaceless(found));
        assert(spaceless(flag));
        if found.len() < flag.len() {
            assert(option[found.len() as int] == flag[found.len() as int]);
        }
        if found.len() > flag.len() {
            assert(found[flag.len() as int] == option.take(found.len() as int)[flag.len() as int]);
        }
    }
    assert(option.update(flag.len() as int, '=') =~= flag + seq!['='] + value);
}

/// Each option gives one notice at most: none where it is kept, exactly one
/// where it is rewritten or dropped.
pub proof fn lemma_one_notice_each(option: Seq<char>)
    ensures
        notices_on(seq![option]).len() == (if cleaned(option) is Kept {
            0nat
        } else {
            1nat
        }),
        cleaned(option) matches Cleaned::Rewritten(text) ==> notices_on(seq![option]) == seq![
            NoticeView::Rewritten { configured: option, corrected: text },
        ] && cleaned_options(seq![option]) == seq![text],
        cleaned(option) is Dropped ==> cleaned_options(seq![option]).len() == 0,
        cleaned(option) is Kept ==> cleaned_options(seq![option]) == seq![option],
{
    let one = seq![option];
    assert(one.drop_last() =~= Seq::<Seq<char>>::empty());
    assert(one.last() == option);
    assert(notices_on(one.drop_last()) =~= Seq::<NoticeView>::empty());
    assert(cleaned_options(one.drop_last()) =~= Seq::<Seq<char>>::empty());
    match cleaned(option) {
        Cleaned::Rewritten(text) => {
            assert(notices_on(one) =~= seq![
                NoticeView::Rewritten { configured: option, corrected: text },
            ]);
            assert(cleaned_options(one) =~= seq![text]);
        },
        Cleaned::Dropped => {},
        Cleaned::Kept => {
            assert(cleaned_options(one) =~= seq![option]);
        },
    }
}

/// Options that need no correction are handed on as they are, in their
/// order, and give no notice.
pub proof fn lemma_sound_options_verbatim(options: Seq<Seq<char>>)
    requires
        forall|i: int| 0 <= i < options.len() ==> cleaned(#[trigger] options[i]) is Kept,
    ensures
        cleaned_options(options) == options,
        notices_on(options).len() == 0,
    decreases options.len(),
{
    if options.len() > 0 {
        let before = options.drop_last();
        assert forall|i: int| 0 <= i < before.len() implies cleaned(#[trigger] before[i])
            is Kept by {
            assert(before[i] == options[i]);
        }
        lemma_sound_options_verbatim(before);
        assert(cleaned(options.last()) is Kept);
        assert(before.push(options.last()) =~= options);
    } else {
        assert(cleaned_options(options) =~= options);
    }
}

/// No option is added and none is counted twice: there are as many options
/// and notices as the configuration allows for.
pub proof fn lemma_option_counts(options: Seq<Seq<char>>)
    ensures
        cleaned_options(options).len() <= options.len(),
        notices_on(options).len() <= options.len(),
        options.len() <= cleaned_options(options).len() + notices_on(options).len(),
    decreases options.len(),
{
    if options.len() > 0 {
        lemma_option_counts(options.drop_last());
    }
}

} // verus!
