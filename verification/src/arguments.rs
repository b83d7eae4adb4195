//! The arguments of a launch: the options for the virtual machine, put
//! right where they are written wrongly, the classpath and heap options that
//! the launcher adds, and the arguments for the application.

use vstd::prelude::*;
use crate::decimal::{decimal_text, is_digit, push_decimal};
use crate::launch_config::LaunchConfig;
use crate::text::{
    append_str, chars_of, chars_views, lemma_views_push, push_texts, starts_with, string_of,
    views,
};

verus! {

/// What a launch works from: the configuration, the options for the virtual
/// machine and the arguments for the application.
#[derive(Debug)]
pub struct LaunchOpts {
    pub config: LaunchConfig,
    pub jvm_opts: Vec<String>,
    pub program_opts: Vec<String>,
}

/// The options of the module system. The virtual machine takes their value
/// only behind `=`.
pub open spec fn module_flags() -> Seq<Seq<char>> {
    seq![
        "--add-opens"@,
        "--add-exports"@,
        "--add-reads"@,
        "--add-modules"@,
        "--patch-module"@,
        "--limit-modules"@,
        "--module-path"@,
        "--upgrade-module-path"@,
        "--enable-native-access"@,
    ]
}

/// The options that carry a size, which must begin with a digit right behind
/// the option's name.
pub open spec fn sized_flags() -> Seq<Seq<char>> {
    seq!["-Xmx"@, "-Xms"@, "-Xss"@, "-Xmn"@]
}

/// Whether `option` is `flag` followed by the character `next`.
pub open spec fn flag_then(option: Seq<char>, flag: Seq<char>, next: char) -> bool {
    &&& flag.is_prefix_of(option)
    &&& option.len() > flag.len()
    &&& option[flag.len() as int] == next
}

/// The index of the first of `flags` that `option` writes with a space
/// behind it, or the number of flags where it does so with none.
pub open spec fn first_spaced(option: Seq<char>, flags: Seq<Seq<char>>) -> int
    decreases flags.len(),
{
    if flags.len() == 0 {
        0
    } else if flag_then(option, flags[0], ' ') {
        0
    } else {
        1 + first_spaced(option, flags.drop_first())
    }
}

/// The index of the first of `flags` that `option` begins with, or the
/// number of flags where it begins with none.
pub open spec fn first_prefix(option: Seq<char>, flags: Seq<Seq<char>>) -> int
    decreases flags.len(),
{
    if flags.len() == 0 {
        0
    } else if flags[0].is_prefix_of(option) {
        0
    } else {
        1 + first_prefix(option, flags.drop_first())
    }
}

/// What becomes of one configured option.
pub enum Cleaned {
    /// It is handed on as it is.
    Kept,
    /// It is handed on with this text.
    Rewritten(Seq<char>),
    /// It is left out.
    Dropped,
}

/// What becomes of `option`. A module option with a space before its value
/// gets `=` in place of that space. A sized option without a digit right
/// behind its name is dropped. Every other option is kept.
pub open spec fn cleaned(option: Seq<char>) -> Cleaned {
    let m = first_spaced(option, module_flags());
    let s = first_prefix(option, sized_flags());
    if m < module_flags().len() {
        Cleaned::Rewritten(option.update(module_flags()[m].len() as int, '='))
    } else if s < sized_flags().len() && !(option.len() > sized_flags()[s].len() && is_digit(
        option[sized_flags()[s].len() as int],
    )) {
        Cleaned::Dropped
    } else {
        Cleaned::Kept
    }
}

/// The options that come out of the configured `options`, in their order.
pub open spec fn cleaned_options(options: Seq<Seq<char>>) -> Seq<Seq<char>>
    decreases options.len(),
{
    if options.len() == 0 {
        Seq::empty()
    } else {
        let before = cleaned_options(options.drop_last());
        match cleaned(options.last()) {
            Cleaned::Kept => before.push(options.last()),
            Cleaned::Rewritten(text) => before.push(text),
            Cleaned::Dropped => before,
        }
    }
}

/// A remark on an option that was not handed on as configured.
#[derive(Debug)]
pub enum Notice {
    /// The option was rewritten.
    Rewritten { configured: String, corrected: String },
    /// The option was left out.
    Dropped { configured: String },
}

/// A notice, with its texts as sequences of characters.
pub enum NoticeView {
    Rewritten { configured: Seq<char>, corrected: Seq<char> },
    Dropped { configured: Seq<char> },
}

impl View for Notice {
    type V = NoticeView;

    open spec fn view(&self) -> NoticeView {
        match self {
            Notice::Rewritten { configured, corrected } => NoticeView::Rewritten {
                configured: configured@,
                corrected: corrected@,
            },
            Notice::Dropped { configured } => NoticeView::Dropped { configured: configured@ },
        }
    }
}

/// The views of a sequence of notices.
pub open spec fn notice_views(notices: Seq<Notice>) -> Seq<NoticeView> {
    notices.map_values(|n: Notice| n@)
}

/// The notices on the configured `options`, in their order: one for each
/// option that is rewritten or dropped, none for one that is kept.
pub open spec fn notices_on(options: Seq<Seq<char>>) -> Seq<NoticeView>
    decreases options.len(),
{
    if options.len() == 0 {
        Seq::empty()
    } else {
        let before = notices_on(options.drop_last());
        match cleaned(options.last()) {
            Cleaned::Kept => before,
            Cleaned::Rewritten(text) => before.push(
                NoticeView::Rewritten { configured: options.last(), corrected: text },
            ),
            Cleaned::Dropped => before.push(NoticeView::Dropped { configured: options.last() }),
        }
    }
}

/// The text of a notice.
pub open spec fn notice_text(notice: NoticeView) -> Seq<char> {
    match notice {
        NoticeView::Rewritten { configured, corrected } => "Option '"@ + configured
            + "' must give its value behind '='; it is passed as '"@ + corrected + "'."@,
        NoticeView::Dropped { configured } => "Option '"@ + configured
            + "' must give a number right behind its name; it is left out."@,
    }
}

impl Notice {
    /// The notice as a sentence for the operator.
    pub fn message(&self) -> (text: String)
        ensures
            text@ == notice_text(self@),
    {
        let mut out: Vec<char> = Vec::new();
        append_str(&mut out, "Option '");
        match self {
            Notice::Rewritten { configured, corrected } => {
                append_str(&mut out, configured.as_str());
                append_str(&mut out, "' must give its value behind '='; it is passed as '");
                append_str(&mut out, corrected.as_str());
                append_str(&mut out, "'.");
            },
            Notice::Dropped { configured } => {
                append_str(&mut out, configured.as_str());
                append_str(
                    &mut out,
                    "' must give a number right behind its name; it is left out.",
                );
            },
        }
        proof {
            assert(out@ =~= notice_text(self@));
        }
        string_of(&out)
    }
}

fn push_flag(list: &mut Vec<Vec<char>>, flag: &str)
    ensures
        chars_views(final(list)@) == chars_views(old(list)@).push(flag@),
{
    let chars = chars_of(flag);
    proof {
        assert(chars_views(list@.push(chars)) =~= chars_views(list@).push(flag@));
    }
    list.push(chars);
}

fn module_flag_list() -> (list: Vec<Vec<char>>)
    ensures
        chars_views(list@) == module_flags(),
{
    let mut list: Vec<Vec<char>> = Vec::new();
    proof {
        assert(chars_views(list@) =~= Seq::<Seq<char>>::empty());
    }
    push_flag(&mut list, "--add-opens");
    push_flag(&mut list, "--add-exports");
    push_flag(&mut list, "--add-reads");
    push_flag(&mut list, "--add-modules");
    push_flag(&mut list, "--patch-module");
    push_flag(&mut list, "--limit-modules");
    push_flag(&mut list, "--module-path");
    push_flag(&mut list, "--upgrade-module-path");
    push_flag(&mut list, "--enable-native-access");
    proof {
        assert(chars_views(list@) =~= module_flags());
    }
    list
}

fn sized_flag_list() -> (list: Vec<Vec<char>>)
    ensures
        chars_views(list@) == sized_flags(),
{
    let mut list: Vec<Vec<char>> = Vec::new();
    proof {
        assert(chars_views(list@) =~= Seq::<Seq<char>>::empty());
    }
    push_flag(&mut list, "-Xmx");
    push_flag(&mut list, "-Xms");
    push_flag(&mut list, "-Xss");
    push_flag(&mut list, "-Xmn");
    proof {
        assert(chars_views(list@) =~= sized_flags());
    }
    list
}

fn find_spaced(option: &Vec<char>, flags: &Vec<Vec<char>>) -> (at: usize)
    ensures
        at == first_spaced(option@, chars_views(flags@)),
        at <= flags.len(),
{
    let ghost all = chars_views(flags@);
    let mut i: usize = 0;
    proof {
        assert(all.skip(0) == all);
    }
    while i < flags.len()
        invariant
            i <= flags.len(),
            all == chars_views(flags@),
            first_spaced(option@, all) == i + first_spaced(option@, all.skip(i as int)),
        decreases flags.len() - i,
    {
        let flag = &flags[i];
        proof {
            assert(all.skip(i as int)[0] == flag@);
            assert(all.skip(i as int).drop_first() == all.skip(i + 1));
        }
        if starts_with(option, flag) && option.len() > flag.len() && option[flag.len()] == ' ' {
            return i;
        }
        i += 1;
    }
    i
}

fn find_prefix(option: &Vec<char>, flags: &Vec<Vec<char>>) -> (at: usize)
    ensures
        at == first_prefix(option@, chars_views(flags@)),
        at <= flags.len(),
{
    let ghost all = chars_views(flags@);
    let mut i: usize = 0;
    proof {
        assert(all.skip(0) == all);
    }
    while i < flags.len()
        invariant
            i <= flags.len(),
            all == chars_views(flags@),
            first_prefix(option@, all) == i + first_prefix(option@, all.skip(i as int)),
        decreases flags.len() - i,
    {
        let flag = &flags[i];
        proof {
            assert(all.skip(i as int)[0] == flag@);
            assert(all.skip(i as int).drop_first() == all.skip(i + 1));
        }
        if starts_with(option, flag) {
            return i;
        }
        i += 1;
    }
    i
}

fn is_digit_char(c: char) -> (b: bool)
    ensures
        b == is_digit(c),
{
    '0' <= c && c <= '9'
}

/// What becomes of one option, with the rewritten text where there is one.
enum Outcome {
    Kept,
    Rewritten(Vec<char>),
    Dropped,
}

impl Outcome {
    spec fn view(&self) -> Cleaned {
        match self {
            Outcome::Kept => Cleaned::Kept,
            Outcome::Rewritten(text) => Cleaned::Rewritten(text@),
            Outcome::Dropped => Cleaned::Dropped,
        }
    }
}

fn clean_option(option: &Vec<char>, module: &Vec<Vec<char>>, sized: &Vec<Vec<char>>) -> (outcome:
    Outcome)
    requires
        chars_views(module@) == module_flags(),
        chars_views(sized@) == sized_flags(),
    ensures
        outcome.view() == cleaned(option@),
{
    let m = find_spaced(option, module);
    if m < module.len() {
        let at = module[m].len();
        proof {
            assert(chars_views(module@)[m as int] == module@[m as int]@);
            lemma_first_spaced(option@, module_flags());
        }
        let mut text = option.clone();
        text.set(at, '=');
        return Outcome::Rewritten(text);
    }
    let k = find_prefix(option, sized);
    if k < sized.len() {
        let at = sized[k].len();
        proof {
            assert(chars_views(sized@)[k as int] == sized@[k as int]@);
        }
        if !(option.len() > at && is_digit_char(option[at])) {
            return Outcome::Dropped;
        }
    }
    Outcome::Kept
}

/// `first_spaced` is an index into the flags or their number, and where it
/// is an index the option writes that flag with a space behind it.
pub proof fn lemma_first_spaced(option: Seq<char>, flags: Seq<Seq<char>>)
    ensures
        0 <= first_spaced(option, flags) <= flags.len(),
        first_spaced(option, flags) < flags.len() ==> flag_then(
            option,
            flags[first_spaced(option, flags)],
            ' ',
        ),
    decreases flags.len(),
{
    if flags.len() > 0 && !flag_then(option, flags[0], ' ') {
        lemma_first_spaced(option, flags.drop_first());
    }
}

/// Puts the configured options right: returns the options to hand on, in
/// their order, and a notice for each option that was rewritten or dropped.
pub fn sanitize_options(options: &Vec<String>) -> (out: (Vec<String>, Vec<Notice>))
    ensures
        views(out.0@) == cleaned_options(views(options@)),
        notice_views(out.1@) == notices_on(views(options@)),
{
    let module = module_flag_list();
    let sized = sized_flag_list();
    let ghost all = views(options@);
    let mut kept: Vec<String> = Vec::new();
    let mut notices: Vec<Notice> = Vec::new();
    let mut i: usize = 0;
    proof {
        assert(views(kept@) =~= Seq::<Seq<char>>::empty());
        assert(notice_views(notices@) =~= Seq::<NoticeView>::empty());
        assert(all.take(0) =~= Seq::<Seq<char>>::empty());
    }
    while i < options.len()
        invariant
            i <= options.len(),
            all == views(options@),
            chars_views(module@) == module_flags(),
            chars_views(sized@) == sized_flags(),
            views(kept@) == cleaned_options(all.take(i as int)),
            notice_views(notices@) == notices_on(all.take(i as int)),
        decreases options.len() - i,
    {
        let option = chars_of(options[i].as_str());
        proof {
            assert(all.take(i + 1).drop_last() == all.take(i as int));
            assert(all.take(i + 1).last() == options@[i as int]@);
        }
        match clean_option(&option, &module, &sized) {
            Outcome::Kept => {
                let same = options[i].clone();
                proof {
                    lemma_views_push(kept@, same);
                }
                kept.push(same);
            },
            Outcome::Rewritten(text) => {
                let corrected = string_of(&text);
                let again = corrected.clone();
                let notice = Notice::Rewritten { configured: options[i].clone(), corrected: again };
                proof {
                    lemma_views_push(kept@, corrected);
                    assert(notice_views(notices@.push(notice)) =~= notice_views(notices@).push(
                        notice@,
                    ));
                }
                kept.push(corrected);
                notices.push(notice);
            },
            Outcome::Dropped => {
                let notice = Notice::Dropped { configured: options[i].clone() };
                proof {
                    assert(notice_views(notices@.push(notice)) =~= notice_views(notices@).push(
                        notice@,
                    ));
                }
                notices.push(notice);
            },
        }
        i += 1;
    }
    proof {
        assert(all.take(options.len() as int) == all);
    }
    (kept, notices)
}

/// The texts of `parts` in one line, with `sep` between each two.
pub open spec fn joined(parts: Seq<Seq<char>>, sep: char) -> Seq<char>
    decreases parts.len(),
{
    if parts.len() == 0 {
        Seq::empty()
    } else if parts.len() == 1 {
        parts[0]
    } else {
        joined(parts.drop_last(), sep).push(sep) + parts.last()
    }
}

/// Writes the texts of `parts` in one line, with `sep` between each two.
pub fn join_entries(parts: &Vec<String>, sep: char) -> (line: String)
    ensures
        line@ == joined(views(parts@), sep),
{
    let ghost all = views(parts@);
    let mut out: Vec<char> = Vec::new();
    let mut i: usize = 0;
    proof {
        assert(all.take(0) =~= Seq::<Seq<char>>::empty());
    }
    while i < parts.len()
        invariant
            i <= parts.len(),
            all == views(parts@),
            out@ == joined(all.take(i as int), sep),
        decreases parts.len() - i,
    {
        proof {
            assert(all.take(i + 1).drop_last() == all.take(i as int));
            assert(all.take(i + 1).last() == parts@[i as int]@);
            if i == 0 {
                assert(all.take(1)[0] == parts@[0]@);
                assert(Seq::<char>::empty() + parts@[0]@ == parts@[0]@);
            }
        }
        if i > 0 {
            out.push(sep);
        }
        append_str(&mut out, parts[i].as_str());
        i += 1;
    }
    proof {
        assert(all.take(parts.len() as int) == all);
    }
    string_of(&out)
}

/// The option that hands the classpath to the virtual machine: none for an
/// empty classpath, else `-Djava.class.path=` and the entries with `sep`
/// between them.
pub open spec fn classpath_option(classpath: Seq<Seq<char>>, sep: char) -> Seq<Seq<char>> {
    if classpath.len() == 0 {
        Seq::empty()
    } else {
        seq!["-Djava.class.path="@ + joined(classpath, sep)]
    }
}

/// One whole, in the unit in which a share of the memory is written.
pub const FRACTION_UNIT: u32 = 1_000_000;

/// The smallest share of the memory that may be configured: a hundredth.
pub const MIN_FRACTION: u32 = 10_000;

/// The share of the memory that is taken where the configured one is out of
/// range: a fifth.
pub const DEFAULT_FRACTION: u32 = 200_000;

/// The share of the memory, in millionths, that the heap takes where
/// `fraction` is configured: `fraction` itself from a hundredth up to the
/// whole, a fifth for any other value.
pub open spec fn effective_fraction(fraction: u32) -> u32 {
    if MIN_FRACTION <= fraction <= FRACTION_UNIT {
        fraction
    } else {
        DEFAULT_FRACTION
    }
}

/// The greatest heap, in kilobytes, on a machine with `total_kb` kilobytes
/// of memory where the share `fraction` is configured, rounded down.
pub open spec fn heap_size(total_kb: u64, fraction: u32) -> nat {
    (total_kb as nat * effective_fraction(fraction) as nat) / (FRACTION_UNIT as nat)
}

/// The share of the memory is never more than the memory.
pub proof fn lemma_heap_within_memory(total_kb: u64, fraction: u32)
    ensures
        heap_size(total_kb, fraction) <= total_kb,
{
    let f = effective_fraction(fraction) as nat;
    let t = total_kb as nat;
    assert(t * f <= t * 1_000_000) by (nonlinear_arith)
        requires
            f <= 1_000_000,
    ;
    assert((t * f) / 1_000_000 <= t) by (nonlinear_arith)
        requires
            t * f <= t * 1_000_000,
    ;
}

/// A share under a hundredth or over the whole counts as a fifth.
pub proof fn lemma_fraction_out_of_range(total_kb: u64, fraction: u32)
    requires
        fraction < MIN_FRACTION || fraction > FRACTION_UNIT,
    ensures
        heap_size(total_kb, fraction) == heap_size(total_kb, DEFAULT_FRACTION),
        heap_size(total_kb, fraction) == total_kb as nat * 200_000 / 1_000_000,
{
}

/// The greatest heap, in kilobytes, for a machine with `total_kb` kilobytes
/// of memory and the configured share `fraction`, in millionths.
pub fn heap_kilobytes(total_kb: u64, fraction: u32) -> (kb: u64)
    ensures
        kb == heap_size(total_kb, fraction),
{
    let share: u32 = if MIN_FRACTION <= fraction && fraction <= FRACTION_UNIT {
        fraction
    } else {
        DEFAULT_FRACTION
    };
    proof {
        lemma_heap_within_memory(total_kb, fraction);
        assert(total_kb as nat * share as nat <= 0xffff_ffff_ffff_ffff * 0xffff_ffff)
            by (nonlinear_arith)
            requires
                total_kb <= 0xffff_ffff_ffff_ffff,
                share <= 0xffff_ffff,
        ;
    }
    let product: u128 = (total_kb as u128) * (share as u128);
    (product / (FRACTION_UNIT as u128)) as u64
}

/// Whether one of `options` sets the greatest heap itself.
pub open spec fn sets_heap(options: Seq<Seq<char>>) -> bool {
    exists|i: int| 0 <= i < options.len() && "-Xmx"@.is_prefix_of(#[trigger] options[i])
}

fn has_heap_option(options: &Vec<String>) -> (b: bool)
    ensures
        b == sets_heap(views(options@)),
{
    let flag = chars_of("-Xmx");
    let ghost all = views(options@);
    let mut i: usize = 0;
    while i < options.len()
        invariant
            i <= options.len(),
            flag@ == "-Xmx"@,
            all == views(options@),
            forall|k: int| 0 <= k < i ==> !"-Xmx"@.is_prefix_of(#[trigger] all[k]),
        decreases options.len() - i,
    {
        let option = chars_of(options[i].as_str());
        if starts_with(&option, &flag) {
            proof {
                assert("-Xmx"@.is_prefix_of(all[i as int]));
            }
            return true;
        }
        i += 1;
    }
    false
}

/// The option that bounds the heap: `-Xmx`, the size in kilobytes and `k`,
/// where a share of the memory is configured, the size of the memory is
/// known and no configured option sets the heap itself; else none.
pub open spec fn heap_option(
    options: Seq<Seq<char>>,
    fraction: Option<u32>,
    total_kb: Option<u64>,
) -> Seq<Seq<char>> {
    match (fraction, total_kb) {
        (Some(f), Some(t)) => if sets_heap(options) {
            Seq::empty()
        } else {
            seq!["-Xmx"@ + decimal_text(heap_size(t, f)) + "k"@]
        },
        _ => Seq::empty(),
    }
}

/// The options that the virtual machine is started with: the configured
/// ones, put right; then the classpath; then the bound on the heap.
pub open spec fn launch_options(
    options: Seq<Seq<char>>,
    classpath: Seq<Seq<char>>,
    sep: char,
    fraction: Option<u32>,
    total_kb: Option<u64>,
) -> Seq<Seq<char>> {
    cleaned_options(options) + classpath_option(classpath, sep) + heap_option(
        options,
        fraction,
        total_kb,
    )
}

/// Builds what a launch works from. `forwarded` holds the arguments that the
/// launcher itself was called with; the application gets them before those
/// of the configuration. `total_memory_kb` is the size of the machine's
/// memory where it is known, and `path_separator` the character between the
/// entries of a classpath. The notices tell which configured options were
/// rewritten or dropped.
pub fn build_launch_opts(
    config: LaunchConfig,
    forwarded: Vec<String>,
    total_memory_kb: Option<u64>,
    path_separator: char,
) -> (out: (LaunchOpts, Vec<Notice>))
    ensures
        out.0.config == config,
        views(out.0.jvm_opts@) == launch_options(
            views(config.java_opts@),
            views(config.classpath@),
            path_separator,
            config.memory_fraction,
            total_memory_kb,
        ),
        views(out.0.program_opts@) == views(forwarded@) + views(config.program_opts@),
        notice_views(out.1@) == notices_on(views(config.java_opts@)),
{
    let (mut jvm_opts, notices) = sanitize_options(&config.java_opts);
    if config.classpath.len() > 0 {
        let mut flag = chars_of("-Djava.class.path=");
        append_str(&mut flag, join_entries(&config.classpath, path_separator).as_str());
        let option = string_of(&flag);
        proof {
            lemma_views_push(jvm_opts@, option);
        }
        jvm_opts.push(option);
    }
    let ghost with_classpath = views(jvm_opts@);
    proof {
        assert(with_classpath =~= cleaned_options(views(config.java_opts@)) + classpath_option(
            views(config.classpath@),
            path_separator,
        ));
    }
    match (config.memory_fraction, total_memory_kb) {
        (Some(fraction), Some(total)) => {
            if !has_heap_option(&config.java_opts) {
                let mut flag = chars_of("-Xmx");
                push_decimal(&mut flag, heap_kilobytes(total, fraction));
                append_str(&mut flag, "k");
                let option = string_of(&flag);
                proof {
                    lemma_views_push(jvm_opts@, option);
                }
                jvm_opts.push(option);
            }
        },
        _ => {},
    }
    proof {
        assert(views(jvm_opts@) =~= with_classpath + heap_option(
            views(config.java_opts@),
            config.memory_fraction,
            total_memory_kb,
        ));
    }
    let mut program_opts = forwarded;
    push_texts(&mut program_opts, &config.program_opts);
    (LaunchOpts { config, jvm_opts, program_opts }, notices)
}

} // verus!
