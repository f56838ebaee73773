//! All user-facing text, one table per language (pt-BR, the default, and
//! English), picked from the locale variables by `detect`. Everything on the
//! wire stays English (CLI flags, JSON keys, `command` values); only what a
//! person reads is here.
//!
//! Messages are `{placeholder}` templates filled in one left-to-right pass by
//! `fill`, so a value is never scanned for placeholders itself.

use vstd::prelude::*;
use crate::assistant::Kind;
use crate::pet::Mood;
use crate::species::Species;
use crate::text::{chars_eq_str, chars_of, dec, dec2, find, find_char, push_dec, push_dec2, string_of};

verus! {

/// The full set of user-facing strings. Arrays indexed by an enum follow the
/// enum's declaration order.
pub struct Strings {
    pub species_names: [&'static str; 10],
    pub species_traits: [&'static str; 10],
    pub species_sounds: [&'static str; 10],
    pub species_tastes: [(&'static str, &'static str); 10],
    pub mood_labels: [&'static str; 6],
    pub food_names: [&'static str; 4],
    pub stat_labels: [&'static str; 4],
    pub stat_short: [char; 4],
    pub xp_label: &'static str,
    pub app_title: &'static str,
    pub day: &'static str,
    pub level_short: &'static str,
    pub zen_tag: &'static str,
    pub zen_mode: &'static str,
    pub panel_status: &'static str,
    pub panel_mood: &'static str,
    pub panel_events: &'static str,
    pub panel_queue: &'static str,
    pub likes: &'static str,
    pub hates: &'static str,
    pub log_empty: &'static str,
    pub actions_title: &'static str,
    pub action_labels: [&'static str; 9],
    pub menu_title: &'static str,
    pub game_title: &'static str,
    pub picker_title: &'static str,
    pub name_prompt: &'static str,
    pub default_name: &'static str,
    pub hands: [&'static str; 3],
    pub game_draw: &'static str,
    pub game_win: &'static str,
    pub game_loss: &'static str,
    pub bath_suffix: &'static str,
    pub gallery_small: &'static str,
    pub gallery_mini: &'static str,
    pub assistant_tag: &'static str,
    pub no_messages: &'static str,
    pub kind_labels: [&'static str; 4],
    pub from_label: &'static str,
    pub type_label: &'static str,
    pub asks_verb: &'static str,
    pub expires_label: &'static str,
    pub option_write: &'static str,
    pub default_yes: &'static str,
    pub default_no: &'static str,
    pub unknown_sender: &'static str,
    pub progress_default: &'static str,
    pub progress_fallback: &'static str,
    pub timer_label: &'static str,
    pub pomo_title: &'static str,
    pub pomo_focus: &'static str,
    pub pomo_break: &'static str,
    pub pomo_from: &'static str,
    pub pomo_tasks: &'static str,
    pub pomo_no_tasks: &'static str,
    pub pomo_cycle: &'static str,
    pub pomo_preset_labels: [&'static str; 3],
    pub footer_home: [&'static str; 3],
    pub footer_actions: [&'static str; 2],
    pub footer_menu: [&'static str; 2],
    pub footer_game: [&'static str; 2],
    pub footer_picker: [&'static str; 2],
    pub footer_name: [&'static str; 1],
    pub footer_assistant: [&'static str; 3],
    pub footer_ask: [&'static str; 3],
    pub footer_input: [&'static str; 3],
    pub footer_pomo_idle: [&'static str; 2],
    pub footer_pomo_active: [&'static str; 2],
    pub msg_played: &'static str,
    pub msg_fed: &'static str,
    pub msg_bathed: &'static str,
    pub msg_sleep: &'static str,
    pub msg_wake: &'static str,
    pub msg_zen_on: &'static str,
    pub msg_zen_off: &'static str,
    pub msg_became: &'static str,
    pub msg_level_up: &'static str,
    pub msg_game: &'static str,
    pub msg_game_waiting: &'static str,
    pub msg_celebrate: &'static str,
    pub msg_action_fed: &'static str,
    pub msg_reminder: &'static str,
    pub msg_timer_done: &'static str,
    pub msg_progress_done: &'static str,
    pub msg_answered: &'static str,
    pub msg_ask_expired: &'static str,
    pub msg_warnings: [&'static str; 6],
    pub msg_pomo_start: &'static str,
    pub msg_pomo_break: &'static str,
    pub msg_pomo_focus: &'static str,
    pub msg_pomo_stopped: &'static str,
    pub cli_not_running: &'static str,
    pub cli_pipe_error: &'static str,
    pub cli_ask_timeout: &'static str,
    pub cli_usage_say: &'static str,
    pub cli_usage_ask: &'static str,
    pub cli_usage_remind: &'static str,
    pub cli_usage_timer: &'static str,
    pub cli_usage_do: &'static str,
    pub cli_usage_watch: &'static str,
    pub cli_usage_pomodoro: &'static str,
    pub msg_watch_start: &'static str,
    pub msg_watch_ok: &'static str,
    pub msg_watch_fail: &'static str,
    pub msg_http_on: &'static str,
    pub msg_http_off: &'static str,
    pub msg_http_fail: &'static str,
    pub http_err_bad: &'static str,
    pub http_err_token: &'static str,
    pub http_err_not_found: &'static str,
}

/// The pt-BR strings.
pub open spec fn pt_br() -> Strings {
    Strings {
        species_names: ["gato", "cachorro", "coelho", "dragão", "fantasma", "sapo", "coruja", "raposa", "pinguim", "polvo"],
        species_traits: ["independente", "brincalhão", "tímido", "orgulhoso", "misterioso", "tranquilão", "sábio", "esperto", "elegante", "curioso"],
        species_sounds: ["miau!", "au au!", "hop hop", "rawr!", "buu!", "ribbit!", "huu huu!", "yip yip!", "noot noot!", "blub blub"],
        species_tastes: [("peixe grelhado", "banho"), ("bolinho", "ficar sozinho"), ("chá de camomila", "barulho"), ("peixe grelhado", "banho frio"), ("chá de camomila", "sol do meio-dia"), ("dia de chuva", "sol do meio-dia"), ("madrugada", "acordar cedo"), ("bolinho", "coleira"), ("peixe grelhado", "calor"), ("peixe grelhado", "aquário apertado")],
        mood_labels: ["feliz", "com fome!", "precisa de banho", "com sono...", "triste :(", "dormindo"],
        food_names: ["ração", "peixe grelhado", "bolinho", "chá de camomila"],
        stat_labels: ["fome", "felicidade", "energia", "higiene"],
        stat_short: ['F', 'A', 'E', 'H'],
        xp_label: "xp",
        app_title: "~ tama ~",
        day: "dia",
        level_short: "nv",
        zen_tag: "zen",
        zen_mode: "modo zen",
        panel_status: "status",
        panel_mood: "humor",
        panel_events: "eventos",
        panel_queue: "fila",
        likes: "gosta de",
        hates: "detesta",
        log_empty: "sem eventos por enquanto",
        actions_title: "ações",
        action_labels: ["comer", "brincar", "dormir", "banho", "jokenpô", "assistente", "pomodoro", "zen", "trocar pet"],
        menu_title: "cardápio",
        game_title: "jokenpô",
        picker_title: "escolha seu pet",
        name_prompt: "qual o nome do seu pet?",
        default_name: "tama",
        hands: ["pedra", "papel", "tesoura"],
        game_draw: "empate",
        game_win: "você venceu",
        game_loss: "você perdeu",
        bath_suffix: "(higiene 100)",
        gallery_small: "(compacto)",
        gallery_mini: "(mini)",
        assistant_tag: "modo assistente",
        no_messages: "sem mensagens — esperando programas...",
        kind_labels: ["info", "sucesso", "alerta", "erro"],
        from_label: "de",
        type_label: "tipo",
        asks_verb: "pergunta",
        expires_label: "expira",
        option_write: "escrever outra resposta",
        default_yes: "sim",
        default_no: "não",
        unknown_sender: "?",
        progress_default: "progresso",
        progress_fallback: "tarefa",
        timer_label: "timer",
        pomo_title: "pomodoro",
        pomo_focus: "foco",
        pomo_break: "pausa",
        pomo_from: "pomodoro",
        pomo_tasks: "tarefas em andamento",
        pomo_no_tasks: "nenhuma tarefa agora",
        pomo_cycle: "ciclo",
        pomo_preset_labels: ["25m foco · 5m pausa", "50m foco · 10m pausa", "15m foco · 3m pausa"],
        footer_home: ["[espaço] ações  [a] assistente  [q] sair", "espaço:ações a:assist q:sair", "esp a q"],
        footer_actions: ["[↑↓] ou número  [enter] usar  [esc] voltar", "↑↓ 1-9 enter esc"],
        footer_menu: ["[↑↓] escolher  [enter] dar  [esc] voltar", "↑↓ enter esc"],
        footer_game: ["[1] pedra  [2] papel  [3] tesoura  [esc] voltar", "1 2 3 esc"],
        footer_picker: ["[←↑↓→] navegar  [enter] confirmar  [esc] voltar", "setas · enter · esc"],
        footer_name: ["[enter] confirmar"],
        footer_assistant: ["[enter] próxima da fila  [x] limpar fila  [a] modo pet  [q] sair", "enter:próxima x:limpar a:pet q:sair", "enter x a q"],
        footer_ask: ["[1-9] responder  [esc] ignorar  [a] modo pet", "1-9:responder esc:ignorar a:pet", "1-9 esc a"],
        footer_input: ["[enter] enviar  [esc] voltar às opções  [a] modo pet", "enter:enviar esc:opções a:pet", "enter esc a"],
        footer_pomo_idle: ["[↑↓] ou número  [enter] começar  [esc] voltar", "↑↓ 1-3 enter esc"],
        footer_pomo_active: ["[enter] parar  [esc] voltar", "enter esc"],
        msg_played: "você brincou com {name}",
        msg_fed: "você deu {food} para {name}",
        msg_bathed: "{name} tomou banho",
        msg_sleep: "{name} foi dormir, bons sonhos...",
        msg_wake: "{name} acordou!",
        msg_zen_on: "modo zen ligado",
        msg_zen_off: "modo zen desligado",
        msg_became: "{name} virou um {species}!",
        msg_level_up: "{name} subiu para o nível {level}!",
        msg_game: "jokenpô: {player} × {pet} — {outcome}",
        msg_game_waiting: "{name} está esperando sua jogada...",
        msg_celebrate: "\\o/ {name} comemorou!",
        msg_action_fed: "{name} ganhou ração de um programa",
        msg_reminder: "lembrete: {text}",
        msg_timer_done: "tempo esgotado!",
        msg_progress_done: "{from} concluído!",
        msg_answered: "você respondeu \"{answer}\" para: {text}",
        msg_ask_expired: "pergunta de {from} expirou",
        msg_warnings: ["", "{name} está com fome!", "{name} está precisando de banho", "{name} está com sono...", "{name} está triste", ""],
        msg_pomo_start: "pomodoro começou — foco!",
        msg_pomo_break: "pausa! hora de descansar",
        msg_pomo_focus: "pausa acabou — foco!",
        msg_pomo_stopped: "pomodoro encerrado",
        cli_not_running: "tama não está rodando — abra o app primeiro",
        cli_pipe_error: "não consegui escrever no pipe do tama",
        cli_ask_timeout: "sem resposta do tama (timeout)",
        cli_usage_say: "uso: tama say \"texto\" [--from origem] [--type info|success|warn|error]",
        cli_usage_ask: "uso: tama ask \"pergunta\" [--options a,b,c | --options a --options b ...] [--input] [--from origem] [--id id] [--timeout 60s] [--default resposta]",
        cli_usage_remind: "uso: tama lembrar \"texto\" --em 10m",
        cli_usage_timer: "uso: tama timer 25m",
        cli_usage_do: "uso: tama do celebrate|sleep|wake|feed",
        cli_usage_watch: "uso: tama watch [--from origem] comando [args...]",
        cli_usage_pomodoro: "uso: tama pomodoro [25m] [--break 5m] | tama pomodoro off",
        msg_watch_start: "rodando: {cmd}",
        msg_watch_ok: "{cmd} — ok ({secs})",
        msg_watch_fail: "{cmd} — falhou (exit {code}, {secs})",
        msg_http_on: "http ouvindo em {addr}",
        msg_http_off: "http desligado",
        msg_http_fail: "http falhou em {addr}: {err}",
        http_err_bad: "requisição inválida",
        http_err_token: "token inválido",
        http_err_not_found: "não encontrado",
    }
}

/// The English strings.
pub open spec fn en() -> Strings {
    Strings {
        species_names: ["cat", "dog", "bunny", "dragon", "ghost", "frog", "owl", "fox", "penguin", "octopus"],
        species_traits: ["independent", "playful", "shy", "proud", "mysterious", "laid-back", "wise", "clever", "elegant", "curious"],
        species_sounds: ["meow!", "woof woof!", "hop hop", "rawr!", "boo!", "ribbit!", "hoo hoo!", "yip yip!", "noot noot!", "blub blub"],
        species_tastes: [("grilled fish", "baths"), ("cupcake", "being alone"), ("chamomile tea", "noise"), ("grilled fish", "cold baths"), ("chamomile tea", "midday sun"), ("rainy days", "midday sun"), ("late nights", "waking up early"), ("cupcake", "collars"), ("grilled fish", "heat"), ("grilled fish", "tight tanks")],
        mood_labels: ["happy", "hungry!", "needs a bath", "sleepy...", "sad :(", "sleeping"],
        food_names: ["kibble", "grilled fish", "cupcake", "chamomile tea"],
        stat_labels: ["hunger", "happiness", "energy", "hygiene"],
        stat_short: ['H', 'J', 'E', 'C'],
        xp_label: "xp",
        app_title: "~ tama ~",
        day: "day",
        level_short: "lv",
        zen_tag: "zen",
        zen_mode: "zen mode",
        panel_status: "status",
        panel_mood: "mood",
        panel_events: "events",
        panel_queue: "queue",
        likes: "likes",
        hates: "hates",
        log_empty: "no events yet",
        actions_title: "actions",
        action_labels: ["eat", "play", "sleep", "bath", "jokenpo", "assistant", "pomodoro", "zen", "switch pet"],
        menu_title: "menu",
        game_title: "jokenpo",
        picker_title: "choose your pet",
        name_prompt: "what is your pet's name?",
        default_name: "tama",
        hands: ["rock", "paper", "scissors"],
        game_draw: "draw",
        game_win: "you won",
        game_loss: "you lost",
        bath_suffix: "(hygiene 100)",
        gallery_small: "(compact)",
        gallery_mini: "(mini)",
        assistant_tag: "assistant mode",
        no_messages: "no messages — waiting for programs...",
        kind_labels: ["info", "success", "warning", "error"],
        from_label: "from",
        type_label: "type",
        asks_verb: "asks",
        expires_label: "expires",
        option_write: "write another answer",
        default_yes: "yes",
        default_no: "no",
        unknown_sender: "?",
        progress_default: "progress",
        progress_fallback: "task",
        timer_label: "timer",
        pomo_title: "pomodoro",
        pomo_focus: "focus",
        pomo_break: "break",
        pomo_from: "pomodoro",
        pomo_tasks: "tasks in progress",
        pomo_no_tasks: "no tasks right now",
        pomo_cycle: "cycle",
        pomo_preset_labels: ["25m focus · 5m break", "50m focus · 10m break", "15m focus · 3m break"],
        footer_home: ["[space] actions  [a] assistant  [q] quit", "space:actions a:assist q:quit", "spc a q"],
        footer_actions: ["[↑↓] or number  [enter] use  [esc] back", "↑↓ 1-9 enter esc"],
        footer_menu: ["[↑↓] choose  [enter] give  [esc] back", "↑↓ enter esc"],
        footer_game: ["[1] rock  [2] paper  [3] scissors  [esc] back", "1 2 3 esc"],
        footer_picker: ["[←↑↓→] browse  [enter] confirm  [esc] back", "arrows · enter · esc"],
        footer_name: ["[enter] confirm"],
        footer_assistant: ["[enter] next in queue  [x] clear queue  [a] pet mode  [q] quit", "enter:next x:clear a:pet q:quit", "enter x a q"],
        footer_ask: ["[1-9] answer  [esc] ignore  [a] pet mode", "1-9:answer esc:ignore a:pet", "1-9 esc a"],
        footer_input: ["[enter] send  [esc] back to options  [a] pet mode", "enter:send esc:options a:pet", "enter esc a"],
        footer_pomo_idle: ["[↑↓] or number  [enter] start  [esc] back", "↑↓ 1-3 enter esc"],
        footer_pomo_active: ["[enter] stop  [esc] back", "enter esc"],
        msg_played: "you played with {name}",
        msg_fed: "you gave {food} to {name}",
        msg_bathed: "{name} took a bath",
        msg_sleep: "{name} went to sleep, sweet dreams...",
        msg_wake: "{name} woke up!",
        msg_zen_on: "zen mode on",
        msg_zen_off: "zen mode off",
        msg_became: "{name} became a {species}!",
        msg_level_up: "{name} reached level {level}!",
        msg_game: "jokenpo: {player} × {pet} — {outcome}",
        msg_game_waiting: "{name} is waiting for your move...",
        msg_celebrate: "\\o/ {name} celebrated!",
        msg_action_fed: "{name} got kibble from a program",
        msg_reminder: "reminder: {text}",
        msg_timer_done: "time's up!",
        msg_progress_done: "{from} done!",
        msg_answered: "you answered \"{answer}\" to: {text}",
        msg_ask_expired: "question from {from} expired",
        msg_warnings: ["", "{name} is hungry!", "{name} needs a bath", "{name} is sleepy...", "{name} is sad", ""],
        msg_pomo_start: "pomodoro started — focus!",
        msg_pomo_break: "break! time to rest",
        msg_pomo_focus: "break is over — focus!",
        msg_pomo_stopped: "pomodoro stopped",
        cli_not_running: "tama is not running — open the app first",
        cli_pipe_error: "could not write to the tama pipe",
        cli_ask_timeout: "no answer from tama (timeout)",
        cli_usage_say: "usage: tama say \"text\" [--from source] [--type info|success|warn|error]",
        cli_usage_ask: "usage: tama ask \"question\" [--options a,b,c | --options a --options b ...] [--input] [--from source] [--id id] [--timeout 60s] [--default answer]",
        cli_usage_remind: "usage: tama remind \"text\" --in 10m",
        cli_usage_timer: "usage: tama timer 25m",
        cli_usage_do: "usage: tama do celebrate|sleep|wake|feed",
        cli_usage_watch: "usage: tama watch [--from source] command [args...]",
        cli_usage_pomodoro: "usage: tama pomodoro [25m] [--break 5m] | tama pomodoro off",
        msg_watch_start: "running: {cmd}",
        msg_watch_ok: "{cmd} — ok ({secs})",
        msg_watch_fail: "{cmd} — failed (exit {code}, {secs})",
        msg_http_on: "http listening on {addr}",
        msg_http_off: "http off",
        msg_http_fail: "http failed on {addr}: {err}",
        http_err_bad: "bad request",
        http_err_token: "invalid token",
        http_err_not_found: "not found",
    }
}

/// A language the strings exist in.
#[derive(Clone, Copy, Debug, PartialEq, Eq, Structural)]
pub enum Lang {
    PtBr,
    En,
}

/// The strings of a language.
pub open spec fn table(lang: Lang) -> Strings {
    match lang {
        Lang::PtBr => pt_br(),
        Lang::En => en(),
    }
}

/// The first locale variable that is set, in order of precedence; empty
/// when none is.
pub open spec fn locale_tag(
    tama_lang: Option<Seq<char>>,
    lc_all: Option<Seq<char>>,
    lang: Option<Seq<char>>,
) -> Seq<char> {
    match tama_lang {
        Some(t) => t,
        None => match lc_all {
            Some(t) => t,
            None => match lang {
                Some(t) => t,
                None => Seq::empty(),
            },
        },
    }
}

/// A tag names English when, lowercased, it starts with "en".
pub open spec fn is_english(tag: Seq<char>) -> bool {
    &&& tag.len() >= 2
    &&& (tag[0] == 'e' || tag[0] == 'E')
    &&& (tag[1] == 'n' || tag[1] == 'N')
}

/// The language a tag selects: English for an English tag, pt-BR for
/// anything else, so an unsupported locale never gets a half-translated
/// screen.
pub open spec fn lang_of(tag: Seq<char>) -> Lang {
    if is_english(tag) {
        Lang::En
    } else {
        Lang::PtBr
    }
}

pub open spec fn opt_view(o: Option<&str>) -> Option<Seq<char>> {
    match o {
        Some(s) => Some(s@),
        None => None,
    }
}

/// The language picked from the locale variables `TAMA_LANG`, `LC_ALL` and
/// `LANG` (each `None` when unset): the first one set decides.
pub fn detect(tama_lang: Option<&str>, lc_all: Option<&str>, lang: Option<&str>) -> (r: Lang)
    ensures
        r == lang_of(locale_tag(opt_view(tama_lang), opt_view(lc_all), opt_view(lang))),
{
    let tag = match tama_lang {
        Some(t) => t,
        None => match lc_all {
            Some(t) => t,
            None => match lang {
                Some(t) => t,
                None => "",
            },
        },
    };
    proof {
        reveal_strlit("");
    }
    let c = chars_of(tag);
    if c.len() >= 2 && (c[0] == 'e' || c[0] == 'E') && (c[1] == 'n' || c[1] == 'N') {
        Lang::En
    } else {
        Lang::PtBr
    }
}

/// The strings of a language.
pub fn t(lang: Lang) -> (r: Strings)
    ensures
        r == table(lang),
{
    match lang {
        Lang::PtBr => pt_br_table(),
        Lang::En => en_table(),
    }
}

fn en_table() -> (r: Strings)
    ensures
        r == en(),
{
    Strings {
        species_names: ["cat", "dog", "bunny", "dragon", "ghost", "frog", "owl", "fox", "penguin", "octopus"],
        species_traits: ["independent", "playful", "shy", "proud", "mysterious", "laid-back", "wise", "clever", "elegant", "curious"],
        species_sounds: ["meow!", "woof woof!", "hop hop", "rawr!", "boo!", "ribbit!", "hoo hoo!", "yip yip!", "noot noot!", "blub blub"],
        species_tastes: [("grilled fish", "baths"), ("cupcake", "being alone"), ("chamomile tea", "noise"), ("grilled fish", "cold baths"), ("chamomile tea", "midday sun"), ("rainy days", "midday sun"), ("late nights", "waking up early"), ("cupcake", "collars"), ("grilled fish", "heat"), ("grilled fish", "tight tanks")],
        mood_labels: ["happy", "hungry!", "needs a bath", "sleepy...", "sad :(", "sleeping"],
        food_names: ["kibble", "grilled fish", "cupcake", "chamomile tea"],
        stat_labels: ["hunger", "happiness", "energy", "hygiene"],
        stat_short: ['H', 'J', 'E', 'C'],
        xp_label: "xp",
        app_title: "~ tama ~",
        day: "day",
        level_short: "lv",
        zen_tag: "zen",
        zen_mode: "zen mode",
        panel_status: "status",
        panel_mood: "mood",
        panel_events: "events",
        panel_queue: "queue",
        likes: "likes",
        hates: "hates",
        log_empty: "no events yet",
        actions_title: "actions",
        action_labels: ["eat", "play", "sleep", "bath", "jokenpo", "assistant", "pomodoro", "zen", "switch pet"],
        menu_title: "menu",
        game_title: "jokenpo",
        picker_title: "choose your pet",
        name_prompt: "what is your pet's name?",
        default_name: "tama",
        hands: ["rock", "paper", "scissors"],
        game_draw: "draw",
        game_win: "you won",
        game_loss: "you lost",
        bath_suffix: "(hygiene 100)",
        gallery_small: "(compact)",
        gallery_mini: "(mini)",
        assistant_tag: "assistant mode",
        no_messages: "no messages — waiting for programs...",
        kind_labels: ["info", "success", "warning", "error"],
        from_label: "from",
        type_label: "type",
        asks_verb: "asks",
        expires_label: "expires",
        option_write: "write another answer",
        default_yes: "yes",
        default_no: "no",
        unknown_sender: "?",
        progress_default: "progress",
        progress_fallback: "task",
        timer_label: "timer",
        pomo_title: "pomodoro",
        pomo_focus: "focus",
        pomo_break: "break",
        pomo_from: "pomodoro",
        pomo_tasks: "tasks in progress",
        pomo_no_tasks: "no tasks right now",
        pomo_cycle: "cycle",
        pomo_preset_labels: ["25m focus · 5m break", "50m focus · 10m break", "15m focus · 3m break"],
        footer_home: ["[space] actions  [a] assistant  [q] quit", "space:actions a:assist q:quit", "spc a q"],
        footer_actions: ["[↑↓] or number  [enter] use  [esc] back", "↑↓ 1-9 enter esc"],
        footer_menu: ["[↑↓] choose  [enter] give  [esc] back", "↑↓ enter esc"],
        footer_game: ["[1] rock  [2] paper  [3] scissors  [esc] back", "1 2 3 esc"],
        footer_picker: ["[←↑↓→] browse  [enter] confirm  [esc] back", "arrows · enter · esc"],
        footer_name: ["[enter] confirm"],
        footer_assistant: ["[enter] next in queue  [x] clear queue  [a] pet mode  [q] quit", "enter:next x:clear a:pet q:quit", "enter x a q"],
        footer_ask: ["[1-9] answer  [esc] ignore  [a] pet mode", "1-9:answer esc:ignore a:pet", "1-9 esc a"],
        footer_input: ["[enter] send  [esc] back to options  [a] pet mode", "enter:send esc:options a:pet", "enter esc a"],
        footer_pomo_idle: ["[↑↓] or number  [enter] start  [esc] back", "↑↓ 1-3 enter esc"],
        footer_pomo_active: ["[enter] stop  [esc] back", "enter esc"],
        msg_played: "you played with {name}",
        msg_fed: "you gave {food} to {name}",
        msg_bathed: "{name} took a bath",
        msg_sleep: "{name} went to sleep, sweet dreams...",
        msg_wake: "{name} woke up!",
        msg_zen_on: "zen mode on",
        msg_zen_off: "zen mode off",
        msg_became: "{name} became a {species}!",
        msg_level_up: "{name} reached level {level}!",
        msg_game: "jokenpo: {player} × {pet} — {outcome}",
        msg_game_waiting: "{name} is waiting for your move...",
        msg_celebrate: "\\o/ {name} celebrated!",
        msg_action_fed: "{name} got kibble from a program",
        msg_reminder: "reminder: {text}",
        msg_timer_done: "time's up!",
        msg_progress_done: "{from} done!",
        msg_answered: "you answered \"{answer}\" to: {text}",
        msg_ask_expired: "question from {from} expired",
        msg_warnings: ["", "{name} is hungry!", "{name} needs a bath", "{name} is sleepy...", "{name} is sad", ""],
        msg_pomo_start: "pomodoro started — focus!",
        msg_pomo_break: "break! time to rest",
        msg_pomo_focus: "break is over — focus!",
        msg_pomo_stopped: "pomodoro stopped",
        cli_not_running: "tama is not running — open the app first",
        cli_pipe_error: "could not write to the tama pipe",
        cli_ask_timeout: "no answer from tama (timeout)",
        cli_usage_say: "usage: tama say \"text\" [--from source] [--type info|success|warn|error]",
        cli_usage_ask: "usage: tama ask \"question\" [--options a,b,c | --options a --options b ...] [--input] [--from source] [--id id] [--timeout 60s] [--default answer]",
        cli_usage_remind: "usage: tama remind \"text\" --in 10m",
        cli_usage_timer: "usage: tama timer 25m",
        cli_usage_do: "usage: tama do celebrate|sleep|wake|feed",
        cli_usage_watch: "usage: tama watch [--from source] command [args...]",
        cli_usage_pomodoro: "usage: tama pomodoro [25m] [--break 5m] | tama pomodoro off",
        msg_watch_start: "running: {cmd}",
        msg_watch_ok: "{cmd} — ok ({secs})",
        msg_watch_fail: "{cmd} — failed (exit {code}, {secs})",
        msg_http_on: "http listening on {addr}",
        msg_http_off: "http off",
        msg_http_fail: "http failed on {addr}: {err}",
        http_err_bad: "bad request",
        http_err_token: "invalid token",
        http_err_not_found: "not found",
    }
}

fn pt_br_table() -> (r: Strings)
    ensures
        r == pt_br(),
{
    Strings {
        species_names: ["gato", "cachorro", "coelho", "dragão", "fantasma", "sapo", "coruja", "raposa", "pinguim", "polvo"],
        species_traits: ["independente", "brincalhão", "tímido", "orgulhoso", "misterioso", "tranquilão", "sábio", "esperto", "elegante", "curioso"],
        species_sounds: ["miau!", "au au!", "hop hop", "rawr!", "buu!", "ribbit!", "huu huu!", "yip yip!", "noot noot!", "blub blub"],
        species_tastes: [("peixe grelhado", "banho"), ("bolinho", "ficar sozinho"), ("chá de camomila", "barulho"), ("peixe grelhado", "banho frio"), ("chá de camomila", "sol do meio-dia"), ("dia de chuva", "sol do meio-dia"), ("madrugada", "acordar cedo"), ("bolinho", "coleira"), ("peixe grelhado", "calor"), ("peixe grelhado", "aquário apertado")],
        mood_labels: ["feliz", "com fome!", "precisa de banho", "com sono...", "triste :(", "dormindo"],
        food_names: ["ração", "peixe grelhado", "bolinho", "chá de camomila"],
        stat_labels: ["fome", "felicidade", "energia", "higiene"],
        stat_short: ['F', 'A', 'E', 'H'],
        xp_label: "xp",
        app_title: "~ tama ~",
        day: "dia",
        level_short: "nv",
        zen_tag: "zen",
        zen_mode: "modo zen",
        panel_status: "status",
        panel_mood: "humor",
        panel_events: "eventos",
        panel_queue: "fila",
        likes: "gosta de",
        hates: "detesta",
        log_empty: "sem eventos por enquanto",
        actions_title: "ações",
        action_labels: ["comer", "brincar", "dormir", "banho", "jokenpô", "assistente", "pomodoro", "zen", "trocar pet"],
        menu_title: "cardápio",
        game_title: "jokenpô",
        picker_title: "escolha seu pet",
        name_prompt: "qual o nome do seu pet?",
        default_name: "tama",
        hands: ["pedra", "papel", "tesoura"],
        game_draw: "empate",
        game_win: "você venceu",
        game_loss: "você perdeu",
        bath_suffix: "(higiene 100)",
        gallery_small: "(compacto)",
        gallery_mini: "(mini)",
        assistant_tag: "modo assistente",
        no_messages: "sem mensagens — esperando programas...",
        kind_labels: ["info", "sucesso", "alerta", "erro"],
        from_label: "de",
        type_label: "tipo",
        asks_verb: "pergunta",
        expires_label: "expira",
        option_write: "escrever outra resposta",
        default_yes: "sim",
        default_no: "não",
        unknown_sender: "?",
        progress_default: "progresso",
        progress_fallback: "tarefa",
        timer_label: "timer",
        pomo_title: "pomodoro",
        pomo_focus: "foco",
        pomo_break: "pausa",
        pomo_from: "pomodoro",
        pomo_tasks: "tarefas em andamento",
        pomo_no_tasks: "nenhuma tarefa agora",
        pomo_cycle: "ciclo",
        pomo_preset_labels: ["25m foco · 5m pausa", "50m foco · 10m pausa", "15m foco · 3m pausa"],
        footer_home: ["[espaço] ações  [a] assistente  [q] sair", "espaço:ações a:assist q:sair", "esp a q"],
        footer_actions: ["[↑↓] ou número  [enter] usar  [esc] voltar", "↑↓ 1-9 enter esc"],
        footer_menu: ["[↑↓] escolher  [enter] dar  [esc] voltar", "↑↓ enter esc"],
        footer_game: ["[1] pedra  [2] papel  [3] tesoura  [esc] voltar", "1 2 3 esc"],
        footer_picker: ["[←↑↓→] navegar  [enter] confirmar  [esc] voltar", "setas · enter · esc"],
        footer_name: ["[enter] confirmar"],
        footer_assistant: ["[enter] próxima da fila  [x] limpar fila  [a] modo pet  [q] sair", "enter:próxima x:limpar a:pet q:sair", "enter x a q"],
        footer_ask: ["[1-9] responder  [esc] ignorar  [a] modo pet", "1-9:responder esc:ignorar a:pet", "1-9 esc a"],
        footer_input: ["[enter] enviar  [esc] voltar às opções  [a] modo pet", "enter:enviar esc:opções a:pet", "enter esc a"],
        footer_pomo_idle: ["[↑↓] ou número  [enter] começar  [esc] voltar", "↑↓ 1-3 enter esc"],
        footer_pomo_active: ["[enter] parar  [esc] voltar", "enter esc"],
        msg_played: "você brincou com {name}",
        msg_fed: "você deu {food} para {name}",
        msg_bathed: "{name} tomou banho",
        msg_sleep: "{name} foi dormir, bons sonhos...",
        msg_wake: "{name} acordou!",
        msg_zen_on: "modo zen ligado",
        msg_zen_off: "modo zen desligado",
        msg_became: "{name} virou um {species}!",
        msg_level_up: "{name} subiu para o nível {level}!",
        msg_game: "jokenpô: {player} × {pet} — {outcome}",
        msg_game_waiting: "{name} está esperando sua jogada...",
        msg_celebrate: "\\o/ {name} comemorou!",
        msg_action_fed: "{name} ganhou ração de um programa",
        msg_reminder: "lembrete: {text}",
        msg_timer_done: "tempo esgotado!",
        msg_progress_done: "{from} concluído!",
        msg_answered: "você respondeu \"{answer}\" para: {text}",
        msg_ask_expired: "pergunta de {from} expirou",
        msg_warnings: ["", "{name} está com fome!", "{name} está precisando de banho", "{name} está com sono...", "{name} está triste", ""],
        msg_pomo_start: "pomodoro começou — foco!",
        msg_pomo_break: "pausa! hora de descansar",
        msg_pomo_focus: "pausa acabou — foco!",
        msg_pomo_stopped: "pomodoro encerrado",
        cli_not_running: "tama não está rodando — abra o app primeiro",
        cli_pipe_error: "não consegui escrever no pipe do tama",
        cli_ask_timeout: "sem resposta do tama (timeout)",
        cli_usage_say: "uso: tama say \"texto\" [--from origem] [--type info|success|warn|error]",
        cli_usage_ask: "uso: tama ask \"pergunta\" [--options a,b,c | --options a --options b ...] [--input] [--from origem] [--id id] [--timeout 60s] [--default resposta]",
        cli_usage_remind: "uso: tama lembrar \"texto\" --em 10m",
        cli_usage_timer: "uso: tama timer 25m",
        cli_usage_do: "uso: tama do celebrate|sleep|wake|feed",
        cli_usage_watch: "uso: tama watch [--from origem] comando [args...]",
        cli_usage_pomodoro: "uso: tama pomodoro [25m] [--break 5m] | tama pomodoro off",
        msg_watch_start: "rodando: {cmd}",
        msg_watch_ok: "{cmd} — ok ({secs})",
        msg_watch_fail: "{cmd} — falhou (exit {code}, {secs})",
        msg_http_on: "http ouvindo em {addr}",
        msg_http_off: "http desligado",
        msg_http_fail: "http falhou em {addr}: {err}",
        http_err_bad: "requisição inválida",
        http_err_token: "token inválido",
        http_err_not_found: "não encontrado",
    }
}

} // verus!

verus! {

// ---------------------------------------------------------------------------
// Enum-indexed tables

pub open spec fn species_ix(s: Species) -> int {
    match s {
        Species::Cat => 0,
        Species::Dog => 1,
        Species::Bunny => 2,
        Species::Dragon => 3,
        Species::Phantom => 4,
        Species::Frog => 5,
        Species::Owl => 6,
        Species::Fox => 7,
        Species::Penguin => 8,
        Species::Octopus => 9,
    }
}

fn species_index(s: Species) -> (i: usize)
    ensures
        i == species_ix(s),
{
    match s {
        Species::Cat => 0,
        Species::Dog => 1,
        Species::Bunny => 2,
        Species::Dragon => 3,
        Species::Phantom => 4,
        Species::Frog => 5,
        Species::Owl => 6,
        Species::Fox => 7,
        Species::Penguin => 8,
        Species::Octopus => 9,
    }
}

pub open spec fn mood_ix(m: Mood) -> int {
    match m {
        Mood::Happy => 0,
        Mood::Hungry => 1,
        Mood::Dirty => 2,
        Mood::Sleepy => 3,
        Mood::Sad => 4,
        Mood::Sleeping => 5,
    }
}

fn mood_index(m: Mood) -> (i: usize)
    ensures
        i == mood_ix(m),
{
    match m {
        Mood::Happy => 0,
        Mood::Hungry => 1,
        Mood::Dirty => 2,
        Mood::Sleepy => 3,
        Mood::Sad => 4,
        Mood::Sleeping => 5,
    }
}

pub open spec fn kind_ix(k: Kind) -> int {
    match k {
        Kind::Info => 0,
        Kind::Success => 1,
        Kind::Warn => 2,
        Kind::Error => 3,
    }
}

fn kind_index(k: Kind) -> (i: usize)
    ensures
        i == kind_ix(k),
{
    match k {
        Kind::Info => 0,
        Kind::Success => 1,
        Kind::Warn => 2,
        Kind::Error => 3,
    }
}

pub fn species_name(lang: Lang, s: Species) -> (r: &'static str)
    ensures
        r == table(lang).species_names[species_ix(s)],
{
    t(lang).species_names[species_index(s)]
}

pub fn species_trait(lang: Lang, s: Species) -> (r: &'static str)
    ensures
        r == table(lang).species_traits[species_ix(s)],
{
    t(lang).species_traits[species_index(s)]
}

pub fn species_sound(lang: Lang, s: Species) -> (r: &'static str)
    ensures
        r == table(lang).species_sounds[species_ix(s)],
{
    t(lang).species_sounds[species_index(s)]
}

/// What the species likes and what it hates.
pub fn species_tastes(lang: Lang, s: Species) -> (r: (&'static str, &'static str))
    ensures
        r == table(lang).species_tastes[species_ix(s)],
{
    t(lang).species_tastes[species_index(s)]
}

pub fn mood_label(lang: Lang, m: Mood) -> (r: &'static str)
    ensures
        r == table(lang).mood_labels[mood_ix(m)],
{
    t(lang).mood_labels[mood_index(m)]
}

pub fn kind_label(lang: Lang, k: Kind) -> (r: &'static str)
    ensures
        r == table(lang).kind_labels[kind_ix(k)],
{
    t(lang).kind_labels[kind_index(k)]
}

// ---------------------------------------------------------------------------
// Templates

/// The value of the first argument named `k`.
pub open spec fn lookup(args: Seq<(Seq<char>, Seq<char>)>, k: Seq<char>) -> Option<Seq<char>>
    decreases args.len(),
{
    if args.len() == 0 {
        None
    } else if args[0].0 == k {
        Some(args[0].1)
    } else {
        lookup(args.drop_first(), k)
    }
}

/// `t` with every `{key}` replaced, in one left-to-right pass: a known key by
/// its value, an unknown one kept as written. Text after a `{` that is never
/// closed is kept as it is.
pub open spec fn fill_text(t: Seq<char>, args: Seq<(Seq<char>, Seq<char>)>) -> Seq<char>
    decreases t.len(),
{
    match find(t, '{') {
        None => t,
        Some(open) => match find(t.skip(open), '}') {
            None => t,
            Some(c) => {
                proof {
                    crate::text::lemma_find_bounds(t, '{');
                    crate::text::lemma_find_bounds(t.skip(open), '}');
                }
                let close = open + c;
                let piece = match lookup(args, t.subrange(open + 1, close)) {
                    Some(v) => v,
                    None => t.subrange(open, close + 1),
                };
                t.take(open) + piece + fill_text(t.skip(close + 1), args)
            },
        },
    }
}

pub open spec fn arg_views(a: Seq<(&str, &str)>) -> Seq<(Seq<char>, Seq<char>)> {
    a.map_values(|p: (&str, &str)| (p.0@, p.1@))
}

fn lookup_arg<'a>(args: &[(&'a str, &'a str)], key: &[char]) -> (r: Option<&'a str>)
    ensures
        match r {
            Some(v) => lookup(arg_views(args@), key@) == Some(v@),
            None => lookup(arg_views(args@), key@) is None,
        },
{
    let ghost av = arg_views(args@);
    let mut j: usize = 0;
    assert(av.skip(0) =~= av);
    while j < args.len()
        invariant
            j <= args.len(),
            av == arg_views(args@),
            lookup(av, key@) == lookup(av.skip(j as int), key@),
        decreases args.len() - j,
    {
        let (k, v) = args[j];
        assert(av.skip(j as int)[0] == (k@, v@));
        if chars_eq_str(key, k) {
            return Some(v);
        }
        assert(av.skip(j as int).drop_first() =~= av.skip(j + 1));
        j = j + 1;
    }
    None
}

/// Substitutes `{key}` placeholders in one left-to-right pass.
pub fn fill(template: &str, args: &[(&str, &str)]) -> (r: String)
    ensures
        r@ == fill_text(template@, arg_views(args@)),
{
    let ghost av = arg_views(args@);
    let t = chars_of(template);
    let mut out: Vec<char> = Vec::new();
    let mut i: usize = 0;
    assert(t@.skip(0) =~= t@);
    loop
        invariant_except_break
            i <= t.len(),
            out@ + fill_text(t@.skip(i as int), av) == fill_text(t@, av),
        invariant
            av == arg_views(args@),
        ensures
            out@ == fill_text(t@, av),
        decreases t.len() - i,
    {
        let rest = crate::text::slice_vec(t.as_slice(), i, t.len());
        assert(rest@ =~= t@.skip(i as int));
        match find_char(rest.as_slice(), '{') {
            None => {
                crate::text::push_all(&mut out, rest.as_slice());
                break ;
            },
            Some(open) => {
                proof {
                    crate::text::lemma_find_bounds(rest@, '{');
                }
                let after = crate::text::slice_vec(rest.as_slice(), open, rest.len());
                assert(after@ =~= rest@.skip(open as int));
                match find_char(after.as_slice(), '}') {
                    None => {
                        crate::text::push_all(&mut out, rest.as_slice());
                        break ;
                    },
                    Some(c) => {
                        proof {
                            crate::text::lemma_find_bounds(after@, '}');
                        }
                        let close = open + c;
                        let key = crate::text::slice_vec(rest.as_slice(), open + 1, close);
                        let head = crate::text::slice_vec(rest.as_slice(), 0, open);
                        let ghost before = out@;
                        crate::text::push_all(&mut out, head.as_slice());
                        match lookup_arg(args, key.as_slice()) {
                            Some(v) => crate::text::push_str(&mut out, v),
                            None => {
                                let raw = crate::text::slice_vec(rest.as_slice(), open, close + 1);
                                crate::text::push_all(&mut out, raw.as_slice());
                            },
                        }
                        assert(rest@.take(open as int) =~= head@);
                        assert(t@.skip((i + close + 1) as int) =~= rest@.skip(close + 1));
                        assert(out@ + fill_text(rest@.skip(close + 1), av) =~= before
                            + fill_text(rest@, av));
                        i = i + close + 1;
                    },
                }
            },
        }
    }
    string_of(out.as_slice())
}

fn fill1(template: &str, k: &str, v: &str) -> (r: String)
    ensures
        r@ == fill_text(template@, seq![(k@, v@)]),
{
    let args = [(k, v)];
    let r = fill(template, &args);
    assert(arg_views(args@) =~= seq![(k@, v@)]);
    r
}

fn fill2(template: &str, k1: &str, v1: &str, k2: &str, v2: &str) -> (r: String)
    ensures
        r@ == fill_text(template@, seq![(k1@, v1@), (k2@, v2@)]),
{
    let args = [(k1, v1), (k2, v2)];
    let r = fill(template, &args);
    assert(arg_views(args@) =~= seq![(k1@, v1@), (k2@, v2@)]);
    r
}

fn fill3(template: &str, k1: &str, v1: &str, k2: &str, v2: &str, k3: &str, v3: &str) -> (r:
    String)
    ensures
        r@ == fill_text(template@, seq![(k1@, v1@), (k2@, v2@), (k3@, v3@)]),
{
    let args = [(k1, v1), (k2, v2), (k3, v3)];
    let r = fill(template, &args);
    assert(arg_views(args@) =~= seq![(k1@, v1@), (k2@, v2@), (k3@, v3@)]);
    r
}

} // verus!

verus! {

// ---------------------------------------------------------------------------
// Numbers shown in messages

/// Seconds as `59s`, or `2m05s` from a minute on.
pub open spec fn secs_text(secs: u64) -> Seq<char> {
    if secs >= 60 {
        dec((secs / 60) as nat) + seq!['m'] + dec2((secs % 60) as nat) + seq!['s']
    } else {
        dec(secs as nat) + seq!['s']
    }
}

pub fn fmt_secs(secs: u64) -> (r: String)
    ensures
        r@ == secs_text(secs),
{
    let mut v: Vec<char> = Vec::new();
    if secs >= 60 {
        push_dec(&mut v, secs / 60);
        v.push('m');
        push_dec2(&mut v, secs % 60);
        v.push('s');
    } else {
        push_dec(&mut v, secs);
        v.push('s');
    }
    assert(v@ =~= secs_text(secs));
    string_of(v.as_slice())
}

/// A signed integer in decimal, as `to_string` writes it.
pub open spec fn int_text(n: int) -> Seq<char> {
    if n < 0 {
        seq!['-'] + dec((-n) as nat)
    } else {
        dec(n as nat)
    }
}

fn int_string(n: i32) -> (r: String)
    ensures
        r@ == int_text(n as int),
{
    let mut v: Vec<char> = Vec::new();
    if n < 0 {
        v.push('-');
        let m: i64 = n as i64;
        push_dec(&mut v, (-m) as u64);
    } else {
        push_dec(&mut v, n as u64);
    }
    assert(v@ =~= int_text(n as int));
    string_of(v.as_slice())
}

fn nat_string(n: u64) -> (r: String)
    ensures
        r@ == dec(n as nat),
{
    let mut v: Vec<char> = Vec::new();
    push_dec(&mut v, n);
    assert(v@ =~= dec(n as nat));
    string_of(v.as_slice())
}

// ---------------------------------------------------------------------------
// Log messages

pub fn msg_played(lang: Lang, name: &str) -> (r: String)
    ensures
        r@ == fill_text(table(lang).msg_played@, seq![("name"@, name@)]),
{
    fill1(t(lang).msg_played, "name", name)
}

pub fn msg_fed(lang: Lang, food: &str, name: &str) -> (r: String)
    ensures
        r@ == fill_text(table(lang).msg_fed@, seq![("food"@, food@), ("name"@, name@)]),
{
    fill2(t(lang).msg_fed, "food", food, "name", name)
}

pub fn msg_bathed(lang: Lang, name: &str) -> (r: String)
    ensures
        r@ == fill_text(table(lang).msg_bathed@, seq![("name"@, name@)]),
{
    fill1(t(lang).msg_bathed, "name", name)
}

pub fn msg_sleep(lang: Lang, name: &str, sleeping: bool) -> (r: String)
    ensures
        r@ == fill_text(
            if sleeping {
                table(lang).msg_sleep@
            } else {
                table(lang).msg_wake@
            },
            seq![("name"@, name@)],
        ),
{
    let strings = t(lang);
    let template = if sleeping {
        strings.msg_sleep
    } else {
        strings.msg_wake
    };
    fill1(template, "name", name)
}

pub fn msg_zen(lang: Lang, on: bool) -> (r: String)
    ensures
        r@ == if on {
            table(lang).msg_zen_on@
        } else {
            table(lang).msg_zen_off@
        },
{
    let strings = t(lang);
    if on {
        strings.msg_zen_on.to_owned()
    } else {
        strings.msg_zen_off.to_owned()
    }
}

pub fn msg_became(lang: Lang, name: &str, species: Species) -> (r: String)
    ensures
        r@ == fill_text(
            table(lang).msg_became@,
            seq![("name"@, name@), ("species"@, table(lang).species_names[species_ix(species)]@)],
        ),
{
    fill2(t(lang).msg_became, "name", name, "species", species_name(lang, species))
}

pub fn msg_level_up(lang: Lang, name: &str, level: u32) -> (r: String)
    ensures
        r@ == fill_text(
            table(lang).msg_level_up@,
            seq![("name"@, name@), ("level"@, dec(level as nat))],
        ),
{
    let l = nat_string(level as u64);
    fill2(t(lang).msg_level_up, "name", name, "level", l.as_str())
}

pub fn msg_game(lang: Lang, player: &str, pet: &str, outcome: &str) -> (r: String)
    ensures
        r@ == fill_text(
            table(lang).msg_game@,
            seq![("player"@, player@), ("pet"@, pet@), ("outcome"@, outcome@)],
        ),
{
    fill3(t(lang).msg_game, "player", player, "pet", pet, "outcome", outcome)
}

pub fn msg_game_waiting(lang: Lang, name: &str) -> (r: String)
    ensures
        r@ == fill_text(table(lang).msg_game_waiting@, seq![("name"@, name@)]),
{
    fill1(t(lang).msg_game_waiting, "name", name)
}

pub fn msg_celebrate(lang: Lang, name: &str) -> (r: String)
    ensures
        r@ == fill_text(table(lang).msg_celebrate@, seq![("name"@, name@)]),
{
    fill1(t(lang).msg_celebrate, "name", name)
}

pub fn msg_action_fed(lang: Lang, name: &str) -> (r: String)
    ensures
        r@ == fill_text(table(lang).msg_action_fed@, seq![("name"@, name@)]),
{
    fill1(t(lang).msg_action_fed, "name", name)
}

pub fn msg_reminder(lang: Lang, text: &str) -> (r: String)
    ensures
        r@ == fill_text(table(lang).msg_reminder@, seq![("text"@, text@)]),
{
    fill1(t(lang).msg_reminder, "text", text)
}

/// A finished progress bar; an unnamed source gets a generic name.
pub fn msg_progress_done(lang: Lang, from: &str) -> (r: String)
    ensures
        r@ == fill_text(
            table(lang).msg_progress_done@,
            seq![
                ("from"@, if from@.len() == 0 {
                    table(lang).progress_fallback@
                } else {
                    from@
                }),
            ],
        ),
{
    let strings = t(lang);
    let who = if from.is_empty() {
        strings.progress_fallback
    } else {
        from
    };
    fill1(strings.msg_progress_done, "from", who)
}

pub fn msg_answered(lang: Lang, text: &str, answer: &str) -> (r: String)
    ensures
        r@ == fill_text(table(lang).msg_answered@, seq![("answer"@, answer@), ("text"@, text@)]),
{
    fill2(t(lang).msg_answered, "answer", answer, "text", text)
}

pub fn msg_ask_expired(lang: Lang, from: &str) -> (r: String)
    ensures
        r@ == fill_text(table(lang).msg_ask_expired@, seq![("from"@, from@)]),
{
    fill1(t(lang).msg_ask_expired, "from", from)
}

/// The warning a mood raises: none while happy or asleep.
pub fn msg_warning(lang: Lang, mood: Mood, name: &str) -> (r: Option<String>)
    ensures
        r is None <==> (mood == Mood::Happy || mood == Mood::Sleeping),
        r matches Some(w) ==> w@ == fill_text(
            table(lang).msg_warnings[mood_ix(mood)]@,
            seq![("name"@, name@)],
        ),
{
    let template = t(lang).msg_warnings[mood_index(mood)];
    proof {
        reveal_strlit("");
        reveal_strlit("{name} está com fome!");
        reveal_strlit("{name} está precisando de banho");
        reveal_strlit("{name} está com sono...");
        reveal_strlit("{name} está triste");
        reveal_strlit("{name} is hungry!");
        reveal_strlit("{name} needs a bath");
        reveal_strlit("{name} is sleepy...");
        reveal_strlit("{name} is sad");
    }
    if template.is_empty() {
        None
    } else {
        Some(fill1(template, "name", name))
    }
}

pub fn msg_watch_start(lang: Lang, cmd: &str) -> (r: String)
    ensures
        r@ == fill_text(table(lang).msg_watch_start@, seq![("cmd"@, cmd@)]),
{
    fill1(t(lang).msg_watch_start, "cmd", cmd)
}

pub fn msg_watch_ok(lang: Lang, cmd: &str, secs: u64) -> (r: String)
    ensures
        r@ == fill_text(table(lang).msg_watch_ok@, seq![("cmd"@, cmd@), ("secs"@, secs_text(secs))]),
{
    let s = fmt_secs(secs);
    fill2(t(lang).msg_watch_ok, "cmd", cmd, "secs", s.as_str())
}

pub fn msg_watch_fail(lang: Lang, cmd: &str, code: i32, secs: u64) -> (r: String)
    ensures
        r@ == fill_text(
            table(lang).msg_watch_fail@,
            seq![("cmd"@, cmd@), ("code"@, int_text(code as int)), ("secs"@, secs_text(secs))],
        ),
{
    let c = int_string(code);
    let s = fmt_secs(secs);
    fill3(t(lang).msg_watch_fail, "cmd", cmd, "code", c.as_str(), "secs", s.as_str())
}

pub fn msg_http_on(lang: Lang, addr: &str) -> (r: String)
    ensures
        r@ == fill_text(table(lang).msg_http_on@, seq![("addr"@, addr@)]),
{
    fill1(t(lang).msg_http_on, "addr", addr)
}

pub fn msg_http_fail(lang: Lang, addr: &str, err: &str) -> (r: String)
    ensures
        r@ == fill_text(table(lang).msg_http_fail@, seq![("addr"@, addr@), ("err"@, err@)]),
{
    fill2(t(lang).msg_http_fail, "addr", addr, "err", err)
}

} // verus!

verus! {

/// One pass: a placeholder is replaced by its value (or kept as written when
/// no argument has its key), the value goes into the output as it is and is
/// never scanned for placeholders, and the text after the placeholder is
/// filled on its own.
pub proof fn law_fill_one_placeholder(
    before: Seq<char>,
    key: Seq<char>,
    rest: Seq<char>,
    args: Seq<(Seq<char>, Seq<char>)>,
)
    requires
        !before.contains('{'),
        !key.contains('}'),
    ensures
        fill_text(before + seq!['{'] + key + seq!['}'] + rest, args) == before + match lookup(
            args,
            key,
        ) {
            Some(v) => v,
            None => seq!['{'] + key + seq!['}'],
        } + fill_text(rest, args),
{
    let t = before + seq!['{'] + key + seq!['}'] + rest;
    let n = before.len() as int;
    assert forall|k: int| 0 <= k < n implies t[k] != '{' by {
        assert(t[k] == before[k]);
        if before[k] == '{' {
            assert(before.contains('{'));
        }
    }
    crate::text::lemma_find_some(t, '{', n);
    let a = t.skip(n);
    let m = key.len() as int;
    assert forall|k: int| 0 <= k < m + 1 implies a[k] != '}' by {
        if k > 0 {
            assert(a[k] == key[k - 1]);
            if key[k - 1] == '}' {
                assert(key.contains('}'));
            }
        }
    }
    assert(a[m + 1] == '}');
    crate::text::lemma_find_some(a, '}', m + 1);
    let close = n + m + 1;
    assert(t.subrange(n + 1, close) =~= key);
    assert(t.subrange(n, close + 1) =~= seq!['{'] + key + seq!['}']);
    assert(t.skip(close + 1) =~= rest);
    assert(t.take(n) =~= before);
}

/// Text without a `{` comes out unchanged.
pub proof fn law_fill_plain(text: Seq<char>, args: Seq<(Seq<char>, Seq<char>)>)
    requires
        !text.contains('{'),
    ensures
        fill_text(text, args) == text,
{
    crate::text::lemma_find_none(text, '{');
}

/// A `{` that is never closed leaves the rest of the template as written.
pub proof fn law_fill_unclosed(
    before: Seq<char>,
    after: Seq<char>,
    args: Seq<(Seq<char>, Seq<char>)>,
)
    requires
        !before.contains('{'),
        !after.contains('}'),
    ensures
        fill_text(before + seq!['{'] + after, args) == before + seq!['{'] + after,
{
    let t = before + seq!['{'] + after;
    let n = before.len() as int;
    assert forall|k: int| 0 <= k < n implies t[k] != '{' by {
        assert(t[k] == before[k]);
        if before[k] == '{' {
            assert(before.contains('{'));
        }
    }
    crate::text::lemma_find_some(t, '{', n);
    let a = t.skip(n);
    assert(!a.contains('}')) by {
        if a.contains('}') {
            let k = choose|k: int| 0 <= k < a.len() && a[k] == '}';
            assert(k > 0);
            assert(after[k - 1] == '}');
            assert(after.contains('}'));
        }
    }
    crate::text::lemma_find_none(a, '}');
}

} // verus!
