//! Training: scores, climbing, evolution, logs and the task that runs it.

use clawguandan::cards::HandLevel;
use clawguandan::domain::{Seat, TeamId};
use clawguandan::game_log::{GameAction, GameLogEntry};
use clawguandan::game_types::{GamePhase, HandState, TableGameState};
use clawguandan::genetic::{
    ancestor, breed, children_wanted, crossover, crossover_by, elite, founder,
    matches_by_generation, mutate, mutate_by, rank_population, select_tournament,
    tournament_winner, Evolution, EvolveStep, GeneticConfig, Mutation,
};
use clawguandan::human_stats::{
    habit_report, is_rough_bomb, mean_below, rank_value, side_of, stage_of, Side, Stage,
};
use clawguandan::learning_task::{
    auto_resume, current_generation, default_mode, default_population, finish_learning, get_status,
    init_task_manager, is_running, is_running_generation, saved_progress, start_learning,
    stop_learning, training_mode, update_progress, FileChange, LearningRequest, ProgressReport,
    SavedFile, SavedLearningState, TaskManager, TrainingMode,
};
use clawguandan::log_analysis::{analyze_logs, patterns_to_params, LogAnalysis};
use clawguandan::params::AdvancedBotParams;
use clawguandan::prob_reasoner::Fraction;
use clawguandan::record_learner::{
    analyze_game_log, is_bomb_action, is_partner, is_small_card_action, PlayerPatterns,
};
use clawguandan::training::{
    eval_to_score, exceeds, fitness, match_result, matches_from_logs, score_from_logs,
    set_learn_params, set_learn_params_for_teams, starting_params, total_matches, Best, ClimbStep,
    EvalResult, HillClimb, HillClimbConfig, LearnParams, MatchResult, Progress, Refinement,
    SelfPlayConfig,
};

fn part(num: i128, den: i128) -> Fraction {
    Fraction { num, den }
}

fn same(a: Fraction, b: Fraction) -> bool {
    !exceeds(a, b) && !exceeds(b, a)
}

fn won(first: TeamId, level_delta: i32, residual: u128) -> Option<MatchResult> {
    Some(MatchResult { winner: first, first_out: first, level_delta, residual })
}

#[test]
fn a_match_is_read_off_its_last_state() {
    let mut state = TableGameState::new("learn_1".into());
    assert_eq!(match_result(&state), None);
    state.phase = GamePhase::Scoring;
    assert_eq!(match_result(&state), None);
    state.winner_team = Some(TeamId::Ew);
    let mut hand = HandState::new(HandLevel::Two);
    hand.finishing_order = vec![Seat::E, Seat::W];
    hand.hands.insert(Seat::S, vec!["♠3".into(); 5]);
    hand.hands.insert(Seat::N, vec!["♠3".into(); 2]);
    state.hand = Some(hand);
    assert_eq!(
        match_result(&state),
        Some(MatchResult {
            winner: TeamId::Ew,
            first_out: TeamId::Ew,
            level_delta: -3,
            residual: 7,
        })
    );
    state.hand.as_mut().unwrap().finishing_order = vec![Seat::N, Seat::W];
    let r = match_result(&state).unwrap();
    assert_eq!((r.first_out, r.level_delta), (TeamId::Sn, 2));
    state.hand.as_mut().unwrap().finishing_order = vec![Seat::N];
    assert_eq!(match_result(&state).unwrap().level_delta, 0);
}

#[test]
fn scores_weigh_levels_first_place_and_cards() {
    let mut best = EvalResult::new();
    assert!(same(eval_to_score(&best), part(0, 1)));
    assert!(same(fitness(&best), part(35, 100)));
    assert!(same(score_from_logs(&best), part(1, 2)));
    best.record(won(TeamId::Sn, 3, 0));
    assert!(same(eval_to_score(&best), part(1, 1)));
    assert!(same(fitness(&best), part(1, 1)));
    let mut worst = EvalResult::new();
    worst.record(None);
    assert!(same(eval_to_score(&worst), part(0, 1)));
    let mut mixed = EvalResult::new();
    mixed.record(won(TeamId::Sn, 2, 9));
    mixed.record(won(TeamId::Ew, -2, 18));
    // 0.5 * 0.5 + 0.5 * 0.2 + 0.5 * 0.3
    assert!(same(eval_to_score(&mixed), part(1, 2)));
    assert!(same(fitness(&mixed), part(1, 2)));
}

#[test]
fn losing_doubly_costs_more() {
    let mut single = EvalResult::new();
    single.record(won(TeamId::Ew, -2, 10));
    let mut double = EvalResult::new();
    double.record(won(TeamId::Ew, -3, 10));
    assert!(exceeds(eval_to_score(&single), eval_to_score(&double)));
    assert!(same(fitness(&single), fitness(&double)));
}

#[test]
fn climbing_keeps_the_better_weights() {
    let base = AdvancedBotParams::default_balanced();
    let other = AdvancedBotParams::default_aggressive();
    let mut best = Best { params: base, score: part(1, 3) };
    assert!(!best.offer(other, part(2, 6)));
    assert_eq!(best.params, base);
    assert!(best.offer(other, part(1, 2)));
    assert_eq!(best.params, other);
}

fn climb_config() -> HillClimbConfig {
    HillClimbConfig {
        iterations: 2,
        step_size: 5_000_000,
        eval_config: SelfPlayConfig { matches_per_eval: 10, max_plies: 2000 },
    }
}

#[test]
fn a_new_climb_takes_its_first_score() {
    let base = starting_params(None);
    assert_eq!(base, AdvancedBotParams::default_balanced());
    let mut climb = HillClimb::start(&climb_config(), base, None);
    assert_eq!(climb.next_step(true), ClimbStep::Evaluate);
    assert_eq!(climb.next_step(false), ClimbStep::Stop);
    climb.judge_current(part(-1, 2));
    assert_eq!(climb.best.score, part(-1, 2));
    assert_eq!(climb.matches_done, 10);
    assert!(climb.wants_candidate(true));
    assert!(!climb.wants_candidate(false));
    let candidate = base.mutate_random(5_000_000);
    assert!(climb.judge_candidate(candidate, part(1, 2)));
    assert_eq!(climb.best.params, candidate);
    climb.advance();
    assert!(!climb.wants_candidate(true));
    climb.judge_current(part(1, 4));
    assert_eq!(climb.best.score, part(1, 2));
    climb.advance();
    assert_eq!(climb.next_step(true), ClimbStep::Finish);
    assert_eq!(climb.matches_done, 30);
    assert_eq!(total_matches(10, 2), 40);
}

#[test]
fn a_resumed_climb_keeps_its_score() {
    let saved = Progress { iteration: 1, matches_done: 20, best_score: part(3, 4) };
    let mut climb = HillClimb::start(&climb_config(), starting_params(None), Some(saved));
    assert!(climb.resumed);
    climb.judge_current(part(1, 2));
    assert_eq!(climb.best.score, part(3, 4));
    assert_eq!(climb.matches_done, 30);
    assert_eq!(climb.iteration, 1);
}

#[test]
fn weights_on_trial_stay_in_training() {
    let house = AdvancedBotParams::house_params();
    let trial = AdvancedBotParams::default_aggressive();
    let mut learn = LearnParams::new();
    set_learn_params_for_teams(&mut learn, Some(trial), None);
    assert_eq!(learn.params_for_seat(Seat::S, true), trial);
    assert_eq!(learn.params_for_seat(Seat::E, true), house);
    assert_eq!(learn.params_for_seat(Seat::S, false), house);
    let shared = AdvancedBotParams::default_supportive();
    set_learn_params(&mut learn, Some(shared));
    assert_eq!(learn.params_for_seat(Seat::E, true), shared);
    assert_eq!(learn.params_for_seat(Seat::E, false), house);
}

#[test]
fn at_most_fifty_matches_are_played_for_logs() {
    assert_eq!(matches_from_logs(7), 7);
    assert_eq!(matches_from_logs(70), 50);
}

fn people(scores: &[i128]) -> Vec<Best> {
    scores
        .iter()
        .map(|s| Best { params: AdvancedBotParams::default_balanced(), score: part(*s, 10) })
        .collect()
}

#[test]
fn a_population_is_ranked_from_the_top() {
    let mut population = people(&[3, 9, 1, 9, 5]);
    population[3].params = AdvancedBotParams::default_aggressive();
    let ranked = rank_population(&population);
    let scores: Vec<i128> = ranked.iter().map(|b| b.score.num).collect();
    assert_eq!(scores, vec![9, 9, 5, 3, 1]);
    assert_eq!(ranked[0].params, AdvancedBotParams::default_balanced());
    assert_eq!(ranked[1].params, AdvancedBotParams::default_aggressive());
    assert_eq!(elite(&ranked, 2), ranked[..2].to_vec());
}

#[test]
fn tournaments_are_won_by_the_highest_score() {
    let population = people(&[3, 9, 1, 9]);
    assert_eq!(tournament_winner(&population, &vec![0, 3, 1]), 3);
    assert_eq!(tournament_winner(&population, &vec![2, 2]), 2);
    for _ in 0..50 {
        assert!(select_tournament(&population, 3) < 4);
    }
}

#[test]
fn children_have_each_trait_from_a_parent() {
    let a = AdvancedBotParams::default_balanced();
    let b = AdvancedBotParams::default_aggressive();
    let mut picks = [false; 13];
    assert_eq!(crossover_by(&a, &b, &picks), a);
    picks[0] = true;
    picks[12] = true;
    let child = crossover_by(&a, &b, &picks);
    assert_eq!(child.team_win_weight, b.team_win_weight);
    assert_eq!(child.endgame_hand_count_threshold, b.endgame_hand_count_threshold);
    assert_eq!(child.first_out_weight, a.first_out_weight);
    let child = crossover(&a, &b);
    assert!(
        child.pass_stall_penalty == a.pass_stall_penalty
            || child.pass_stall_penalty == b.pass_stall_penalty
    );
}

#[test]
fn mutations_stay_in_range() {
    let base = AdvancedBotParams::default_balanced();
    let mut m =
        Mutation { weights: [None; 10], sprint_up: None, low_up: None, endgame_up: None };
    assert_eq!(mutate_by(&base, &m), base);
    m.weights[0] = Some(-1_000_000_000);
    m.weights[1] = Some(5);
    m.sprint_up = Some(true);
    m.low_up = Some(false);
    let child = mutate_by(&base, &m);
    assert_eq!(child.team_win_weight, 10_000_000);
    assert_eq!(child.first_out_weight, 80_000_005);
    assert_eq!(child.partner_sprint_threshold, 4);
    assert_eq!(child.enemy_low_cards_threshold, 2);
    assert_eq!(mutate(&base, 0, 10), base);
    assert_eq!(mutate(&base, -5, 10), base);
    let child = mutate(&base, 100_000_000, 10);
    assert!(child.partner_sprint_threshold != base.partner_sprint_threshold);
    assert!((child.first_out_weight - base.first_out_weight).abs() <= 10);
}

#[test]
fn the_first_population_starts_from_the_presets() {
    let stored = AdvancedBotParams::house_params();
    assert_eq!(ancestor(0, Some(stored), false), (stored, 10_000_000, 10_000_000));
    assert_eq!(ancestor(0, None, false).0, AdvancedBotParams::default_balanced());
    assert_eq!(ancestor(2, None, false).0, AdvancedBotParams::default_aggressive());
    assert_eq!(ancestor(3, None, true).0, AdvancedBotParams::default_supportive());
    assert_eq!(ancestor(9, None, true).0, AdvancedBotParams::default_balanced());
    assert_eq!(ancestor(9, None, false).0, AdvancedBotParams::default_aggressive());
    let child = founder(0, Some(stored));
    assert!((child.team_win_weight - stored.team_win_weight).abs() <= 10_000_000);
}

#[test]
fn evolution_remembers_the_best_ever() {
    let mut evolution = Evolution::begin(&people(&[3, 7]));
    assert_eq!(evolution.best.score, part(7, 10));
    assert!(!evolution.succeed(&people(&[5, 6])));
    assert_eq!(evolution.best.score, part(7, 10));
    assert_eq!(evolution.population[0].score, part(6, 10));
    assert!(evolution.succeed(&people(&[8])));
    assert_eq!(evolution.best.score, part(8, 10));
    assert_eq!(evolution.generation, 2);
    let config = GeneticConfig::default();
    let child = breed(&evolution.population, &config);
    assert!((child.team_win_weight - 100_000_000).abs() <= 15_000_000);
    let mut still = GeneticConfig::default();
    still.crossover_rate = 0;
    still.mutation_rate = 0;
    for _ in 0..20 {
        let child = breed(&evolution.population, &still);
        assert!(evolution.population.iter().any(|p| p.params == child));
    }
    still.mutation_rate = 100_000_000;
    for _ in 0..20 {
        let child = breed(&evolution.population, &still);
        let sprint = child.partner_sprint_threshold;
        assert!(evolution.population.iter().all(|p| p.params.partner_sprint_threshold != sprint));
    }
    assert_eq!(matches_by_generation(&config, 0), 1000);
    assert_eq!(matches_by_generation(&config, 2), 2800);
}

#[test]
fn generations_are_filled_up_with_children() {
    let mut config = GeneticConfig::default();
    (config.population_size, config.elitism_count, config.generations) = (4, 1, 2);
    assert_eq!(children_wanted(&config), 3);
    let mut evolution = Evolution::begin(&people(&[3, 7, 5, 1]));
    assert_eq!(evolution.next_step(&config, false), EvolveStep::Stop);
    assert_eq!(evolution.next_step(&config, true), EvolveStep::Breed);
    assert!(!evolution.raise(&config, &people(&[2, 6, 4])));
    let scores: Vec<i128> = evolution.population.iter().map(|b| b.score.num).collect();
    assert_eq!(scores, vec![7, 6, 4, 2]);
    assert!(evolution.raise(&config, &people(&[8, 0, 0])));
    assert_eq!(evolution.best.score, part(8, 10));
    assert_eq!(evolution.population.len(), 4);
    assert_eq!(evolution.next_step(&config, true), EvolveStep::Finish);
    assert_eq!(evolution.next_step(&config, false), EvolveStep::Finish);
    config.elitism_count = 9;
    assert_eq!(children_wanted(&config), 0);
}

#[test]
fn a_refinement_tries_so_many_candidates() {
    let (a, b) = (AdvancedBotParams::default_balanced(), AdvancedBotParams::default_aggressive());
    let mut search = Refinement::start(Best { params: a, score: part(1, 2) }, 2);
    assert_eq!(search.next_step(false), ClimbStep::Stop);
    assert_eq!(search.next_step(true), ClimbStep::Evaluate);
    assert!(!search.judge(b, part(1, 2)));
    assert_eq!((search.iteration, search.best.params), (1, a));
    assert!(search.judge(b, part(2, 3)));
    assert_eq!(search.best, Best { params: b, score: part(2, 3) });
    assert_eq!(search.next_step(false), ClimbStep::Finish);
}

fn request() -> LearningRequest {
    LearningRequest {
        matches_per_eval: 10,
        iterations: 5,
        output_path: "p.json".into(),
        mode: "genetic".into(),
        population_size: 8,
    }
}

fn saved() -> SavedLearningState {
    SavedLearningState {
        job_id: "learn_x".into(),
        matches_per_eval: 3,
        iterations: 4,
        output_path: "q.json".into(),
        current_iteration: 2,
        matches_completed: 12,
        current_eval_score: part(1, 4),
        best_score: part(1, 2),
        status_message: "m".into(),
        mode: "record".into(),
        population_size: 6,
    }
}

fn report(message: &str) -> ProgressReport {
    ProgressReport {
        iteration: 3,
        matches_done: 25,
        eval_score: part(1, 5),
        best_score: part(2, 5),
        message: message.into(),
    }
}

#[test]
fn one_training_runs_at_a_time() {
    let mut tasks = init_task_manager(None, 0);
    assert!(!is_running(&tasks));
    let id = start_learning(&mut tasks, request(), SavedFile::Missing, 1000).unwrap();
    assert!(id.starts_with("learn_"));
    assert!(is_running(&tasks));
    let generation = current_generation(&tasks);
    assert_eq!(generation, 1);
    assert!(is_running_generation(&tasks, generation));
    assert!(!is_running_generation(&tasks, 0));
    assert_eq!(
        start_learning(&mut tasks, request(), SavedFile::Missing, 2000),
        Err("A learning task is already running".to_string())
    );
    assert_eq!(current_generation(&tasks), 1);
}

fn started() -> TaskManager {
    let mut tasks = init_task_manager(None, 0);
    start_learning(&mut tasks, request(), SavedFile::Missing, 1000).unwrap();
    tasks
}

#[test]
fn progress_is_taken_in_until_the_training_stops() {
    let mut tasks = started();
    match update_progress(&mut tasks, report("half")) {
        FileChange::Write { state } => {
            assert_eq!(state.current_iteration, 3);
            assert_eq!(state.status_message, "half");
        }
        other => panic!("{other:?}"),
    }
    let status = get_status(&tasks, 8_500);
    assert_eq!(status.progress, part(25, 50));
    assert_eq!(status.matches_total, 50);
    assert_eq!(status.elapsed_seconds, 7);
    assert_eq!(status.start_time.as_deref(), Some("7"));
    assert_eq!(status.params_path.as_deref(), Some("p.json"));
    let (text, left) = stop_learning(&mut tasks).unwrap();
    assert_eq!(text, format!("Learning task {} stopped", left.job_id));
    assert!(!is_running(&tasks));
    assert!(matches!(update_progress(&mut tasks, report("late")), FileChange::Keep));
    assert_eq!(get_status(&tasks, 8_500).status_message, "Learning stopped by user");
    let answer = start_learning(&mut tasks, request(), SavedFile::Found { state: left }, 9000);
    assert!(answer.is_ok());
    let task = tasks.task.as_ref().unwrap();
    assert_eq!((task.current_iteration, task.matches_completed), (3, 25));
    assert_eq!(task.status_message, "Resuming from saved progress...");
    assert_eq!(current_generation(&tasks), 2);
}

#[test]
fn a_finished_training_leaves_nothing_behind() {
    let mut tasks = started();
    assert!(matches!(finish_learning(&mut tasks, true, "ok"), FileChange::Remove));
    assert!(tasks.task.is_none());
    assert!(matches!(finish_learning(&mut tasks, true, "ok"), FileChange::Keep));
    assert_eq!(stop_learning(&mut tasks).unwrap_err(), "No learning task is running");
    assert_eq!(get_status(&tasks, 0).status_message, "No learning task running");
    let mut tasks = started();
    match finish_learning(&mut tasks, false, "no room") {
        FileChange::Write { state } => {
            assert_eq!(state.status_message, "Learning failed: no room")
        }
        other => panic!("{other:?}"),
    }
}

#[test]
fn a_saved_training_is_recovered_and_resumed() {
    let tasks = init_task_manager(Some(saved()), 5);
    let task = tasks.task.as_ref().unwrap();
    assert!(!task.is_running);
    assert_eq!(task.status_message, "Recovered from previous session: m");
    let plan = auto_resume(&saved()).unwrap();
    assert_eq!((plan.iterations, plan.matches_per_eval), (4, 3));
    assert_eq!(training_mode(&plan.mode), TrainingMode::Record);
    let mut done = saved();
    done.current_iteration = 4;
    assert!(auto_resume(&done).is_none());
    let from = saved_progress(&saved());
    assert_eq!((from.iteration, from.matches_done), (2, 12));
    assert_eq!(training_mode(&default_mode()), TrainingMode::SelfPlay);
    assert_eq!(training_mode("genetic"), TrainingMode::Genetic);
    assert_eq!(training_mode("fromlogs"), TrainingMode::FromLogs);
    assert_eq!(default_population(), 8);
}

#[test]
fn a_damaged_save_is_reported() {
    let mut tasks = init_task_manager(None, 0);
    let file = SavedFile::Unreadable { reason: "io".into() };
    assert_eq!(
        start_learning(&mut tasks, request(), file, 0),
        Err("Failed to read saved state: io".to_string())
    );
    let file = SavedFile::Malformed { reason: "eof".into() };
    assert_eq!(
        start_learning(&mut tasks, request(), file, 0),
        Err("Failed to parse saved state: eof".to_string())
    );
    assert!(!is_running(&tasks));
    assert_eq!(current_generation(&tasks), 2);
}

fn action(seat: &str, kind: &str, cards: &[&str]) -> GameAction {
    GameAction {
        seat: seat.into(),
        seat_team: if seat == "E" || seat == "W" { "EW".into() } else { "SN".into() },
        action_type: kind.into(),
        cards: if cards.is_empty() {
            None
        } else {
            Some(cards.iter().map(|c| c.to_string()).collect())
        },
        seq: 0,
    }
}

fn entry(winner: &str, actions: Vec<GameAction>) -> GameLogEntry {
    GameLogEntry {
        game_id: "g".into(),
        table_id: "t".into(),
        start_time: String::new(),
        end_time: String::new(),
        finishing_order: vec!["E".into(), "S".into(), "W".into(), "N".into()],
        winner_team: winner.into(),
        bot_seats: vec!["S".into(), "N".into()],
        human_seats: vec!["E".into(), "W".into()],
        bot_params: None,
        actions,
        hand_level: "2".into(),
    }
}

#[test]
fn logged_plays_are_told_apart() {
    let texts = |list: &[&str]| -> Vec<String> { list.iter().map(|s| s.to_string()).collect() };
    assert!(is_bomb_action(&texts(&["♠9", "♥9", "♦9", "♣9"]), "2"));
    assert!(!is_bomb_action(&texts(&["♠9", "♥9"]), "2"));
    assert!(is_small_card_action(&texts(&["♠9", "♥9"]), "2"));
    assert!(!is_small_card_action(&texts(&["♠J"]), "2"));
    assert!(!is_small_card_action(&texts(&["♠9"]), "9"));
    assert!(is_partner("E", "W"));
    assert!(!is_partner("E", "S"));
}

#[test]
fn habits_of_people_are_shares_of_their_chances() {
    let e = entry(
        "EW",
        vec![
            action("E", "play", &["♠9"]),
            action("S", "pass", &[]),
            action("W", "pass", &[]),
            action("N", "play", &["♠J"]),
            action("E", "play", &["♠9", "♥9", "♦9", "♣9"]),
        ],
    );
    let (won, p) = analyze_game_log(&e);
    assert!(won);
    assert_eq!(p.bomb_usage_rate, 50_000_000);
    assert_eq!(p.pass_when_partner_leads_rate, 100_000_000);
    assert_eq!(p.proactive_play_rate, 50_000_000);
    let nobody = GameLogEntry { human_seats: vec![], ..entry("EW", vec![]) };
    assert_eq!(analyze_game_log(&nobody).1, PlayerPatterns::default());
}

#[test]
fn weights_are_learned_from_what_winners_do() {
    let mut analysis = LogAnalysis {
        winning_patterns: PlayerPatterns::default(),
        losing_patterns: PlayerPatterns::default(),
        human_wins: 1,
        human_losses: 1,
        total_games: 2,
    };
    let even = patterns_to_params(&analysis);
    assert_eq!(even.team_win_weight, 100_000_000);
    assert_eq!(even.endgame_hand_count_threshold, 7);
    assert_eq!(even.enemy_low_cards_threshold, 4);
    analysis.winning_patterns.proactive_play_rate =
        analysis.losing_patterns.proactive_play_rate + 20_000_000;
    analysis.winning_patterns.save_bomb_for_endgame_rate =
        analysis.losing_patterns.save_bomb_for_endgame_rate + 10_000_000;
    let learned = patterns_to_params(&analysis);
    assert_eq!(learned.proactive_play_bias, 140_000_000);
    assert_eq!(learned.pass_stall_penalty, 80_000_000);
    assert_eq!(learned.bomb_conserve_bias, 95_000_000);
    assert_eq!(learned.endgame_hand_count_threshold, 5);
    analysis.winning_patterns.proactive_play_rate = i64::MAX;
    analysis.losing_patterns.proactive_play_rate = i64::MIN;
    let far = patterns_to_params(&analysis);
    assert_eq!(far.proactive_play_bias, 250_000_000);
    assert_eq!(far.pass_stall_penalty, 30_000_000);
    let none = analyze_logs(&vec![]);
    assert_eq!(none.total_games, 0);
    assert_eq!(none.winning_patterns, PlayerPatterns::default());
    let logs = vec![entry("EW", vec![action("E", "play", &["♠9"])]), entry("SN", vec![])];
    let both = analyze_logs(&logs);
    assert_eq!((both.human_wins, both.human_losses), (1, 1));
}

#[test]
fn card_values_rise_to_the_red_joker() {
    assert_eq!(rank_value("♠3"), Some(3));
    assert_eq!(rank_value("10"), Some(10));
    assert_eq!(rank_value("♥2"), Some(16));
    assert_eq!(rank_value("b"), Some(17));
    assert_eq!(rank_value("RJ"), Some(18));
    assert_eq!(rank_value("🃏b"), Some(17));
    assert_eq!(rank_value("🃏R"), Some(18));
    assert_eq!(rank_value("🃏"), None);
    assert_eq!(rank_value("♠1"), None);
}

#[test]
fn rough_bombs_need_one_value() {
    let texts = |list: &[&str]| -> Vec<String> { list.iter().map(|s| s.to_string()).collect() };
    assert!(is_rough_bomb(&texts(&["♠9", "♥9", "♦9", "♣9"])));
    assert!(!is_rough_bomb(&texts(&["♠9", "♥9", "♦9", "♣8"])));
    assert!(is_rough_bomb(&texts(&["BJ", "BJ"])));
    assert!(is_rough_bomb(&texts(&["🃏R", "🃏b"])));
    assert!(is_rough_bomb(&texts(&["🃏R", "🃏R"])));
    assert!(!is_rough_bomb(&texts(&["🃏R", "♠2"])));
    assert!(is_rough_bomb(&texts(&["🃏R", "🃏R", "🃏b", "🃏b"])));
    assert!(!is_rough_bomb(&texts(&["🃏R", "🃏R", "🃏b"])));
    assert!(!is_rough_bomb(&texts(&["♠9", "♥9", "♦9", "🃏R"])));
    assert_eq!(stage_of(0, 10), Stage::Early);
    assert_eq!(stage_of(3, 10), Stage::Middle);
    assert_eq!(stage_of(6, 10), Stage::Late);
    assert_eq!(stage_of(0, 1), Stage::Early);
}

#[test]
fn habits_are_compared() {
    assert!(habit_report(&vec![]).is_none());
    let e = entry(
        "EW",
        vec![
            action("E", "play", &["♠3"]),
            action("S", "play", &["♠K"]),
            action("W", "play", &["♠9", "♥9", "♦9", "♣9"]),
        ],
    );
    assert_eq!(side_of(&e, "E"), Some(Side::Human));
    assert_eq!(side_of(&e, "N"), Some(Side::Bot));
    assert_eq!(side_of(&e, "X"), None);
    let bot_lead = entry("SN", vec![action("S", "play", &["♠5"])]);
    let r = habit_report(&vec![e, bot_lead]).unwrap();
    assert_eq!(r.sample.games, 2);
    assert_eq!(r.sample.human_seats, 4);
    assert_eq!(r.human.single_plays, vec![3]);
    assert_eq!(r.bot.single_plays, vec![13, 5]);
    assert_eq!(r.human.bomb_stages, vec![Stage::Late]);
    assert_eq!(r.human.finish_ranks, vec![1, 3, 1, 3]);
    assert!(r.humans_play_lower);
    assert!(!r.humans_lead_higher);
    let lead = |seat: &str, cards: &[&str]| entry("SN", vec![action(seat, "play", cards)]);
    // Leads without a value: one of two against one of one, one of two on both sides, two against
    // one, and one against two.
    let logs = vec![lead("E", &["?"]), lead("E", &["♠5"]), lead("S", &["?"])];
    assert!(habit_report(&logs).unwrap().humans_lead_higher);
    let logs =
        vec![lead("E", &["?"]), lead("E", &["♠5"]), lead("S", &["?"]), lead("S", &["♠3"])];
    assert!(!habit_report(&logs).unwrap().humans_lead_higher);
    let logs = vec![
        lead("E", &["?"]),
        lead("E", &["?"]),
        lead("E", &["♠5"]),
        lead("S", &["?"]),
    ];
    assert!(!habit_report(&logs).unwrap().humans_lead_higher);
    let logs = vec![
        lead("E", &["?"]),
        lead("S", &["?"]),
        lead("S", &["?"]),
        lead("S", &["♠K"]),
    ];
    assert!(habit_report(&logs).unwrap().humans_lead_higher);
    let logs = vec![lead("E", &["🃏R"]), lead("S", &["♠2"])];
    assert!(habit_report(&logs).unwrap().humans_lead_higher);
    assert!(mean_below((10, 3), (11, 3)));
    assert!(!mean_below((22, 6), (11, 3)));
}
