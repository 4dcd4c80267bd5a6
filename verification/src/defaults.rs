use crate::scheme::{HeroScheme, PanelGroup, TauntBoxes, TriggerQuotes};
use crate::sender::views;
use vstd::prelude::*;

verus! {

/// `s` is a built-in scheme of `hero` (no skin, shown by the hero's name)
/// with exactly these lines, taunt groups and panels.
pub open spec fn scheme_is(
    s: HeroScheme,
    hero: Seq<char>,
    game_start: Seq<Seq<char>>,
    kill: Seq<Seq<char>>,
    death: Seq<Seq<char>>,
    assist: Seq<Seq<char>>,
    taunts: Seq<Seq<Seq<char>>>,
    panels: Seq<(Seq<char>, Seq<Seq<char>>)>,
) -> bool {
    &&& s.hero_name@ == hero
    &&& s.skin_name is None
    &&& s.display_name@ == hero
    &&& views(s.triggers.game_start@) == game_start
    &&& views(s.triggers.kill@) == kill
    &&& views(s.triggers.death@) == death
    &&& views(s.triggers.assist@) == assist
    &&& s.triggers.taunt.boxes@.len() == taunts.len()
    &&& forall|i: int|
        0 <= i < taunts.len() ==> views(#[trigger] s.triggers.taunt.boxes@[i]@) == taunts[i]
    &&& s.panels@.len() == panels.len()
    &&& forall|i: int|
        0 <= i < panels.len() ==> (#[trigger] s.panels@[i]).name@ == panels[i].0 && views(
            s.panels@[i].lines@,
        ) == panels[i].1
}

fn scheme_kenshin() -> (res: HeroScheme)
    ensures
        scheme_is(res, "绯村剑心"@, seq!["剑是凶器，剑术是杀人之术。"@, "飞天御剑流，参上。"@], seq!["你已经死了。"@, "不过如此。"@, "下一个。"@], seq!["我的我的..."@, "剑，断了。"@], seq!["好配合。"@, "干得漂亮。"@], seq![seq!["你搁这刮痧呢？"@, "就这？"@], seq!["吾之生涯一片无悔。"@, "这便是我的全部了。"@]], seq![("集合"@, seq!["来这里"@, "集合打团"@, "别分散"@, "跟上"@]), ("撤退"@, seq!["撤！"@, "别打了快跑"@, "回防"@])]),
{
    let res = HeroScheme {
        hero_name: String::from_str("绯村剑心"),
        skin_name: None,
        display_name: String::from_str("绯村剑心"),
        triggers: TriggerQuotes {
            game_start: vec![String::from_str("剑是凶器，剑术是杀人之术。"), String::from_str("飞天御剑流，参上。")],
            kill: vec![String::from_str("你已经死了。"), String::from_str("不过如此。"), String::from_str("下一个。")],
            death: vec![String::from_str("我的我的..."), String::from_str("剑，断了。")],
            assist: vec![String::from_str("好配合。"), String::from_str("干得漂亮。")],
            taunt: TauntBoxes {
                boxes: vec![vec![String::from_str("你搁这刮痧呢？"), String::from_str("就这？")], vec![String::from_str("吾之生涯一片无悔。"), String::from_str("这便是我的全部了。")]],
            },
        },
        panels: vec![PanelGroup { name: String::from_str("集合"), lines: vec![String::from_str("来这里"), String::from_str("集合打团"), String::from_str("别分散"), String::from_str("跟上")] }, PanelGroup { name: String::from_str("撤退"), lines: vec![String::from_str("撤！"), String::from_str("别打了快跑"), String::from_str("回防")] }],
    };
    assert(views(res.triggers.game_start@) =~= seq!["剑是凶器，剑术是杀人之术。"@, "飞天御剑流，参上。"@]);
    assert(views(res.triggers.kill@) =~= seq!["你已经死了。"@, "不过如此。"@, "下一个。"@]);
    assert(views(res.triggers.death@) =~= seq!["我的我的..."@, "剑，断了。"@]);
    assert(views(res.triggers.assist@) =~= seq!["好配合。"@, "干得漂亮。"@]);
    assert(views(res.triggers.taunt.boxes@[0]@) =~= seq!["你搁这刮痧呢？"@, "就这？"@]);
    assert(views(res.triggers.taunt.boxes@[1]@) =~= seq!["吾之生涯一片无悔。"@, "这便是我的全部了。"@]);
    assert(views(res.panels@[0].lines@) =~= seq!["来这里"@, "集合打团"@, "别分散"@, "跟上"@]);
    assert(views(res.panels@[1].lines@) =~= seq!["撤！"@, "别打了快跑"@, "回防"@]);
    res
}

fn scheme_emiya() -> (res: HeroScheme)
    ensures
        scheme_is(res, "卫宫"@, seq!["I am the bone of my sword."@, "开始吧。"@], seq!["Trace on。"@, "结束了。"@], seq!["身体...是剑骨头做的。"@, "咳..."@], seq!["投影完毕。"@], seq![seq!["你就这点本事？"@], seq!["无限剑制！"@]], seq![("集合"@, seq!["集合"@, "打团"@]), ("撤退"@, seq!["撤退"@])]),
{
    let res = HeroScheme {
        hero_name: String::from_str("卫宫"),
        skin_name: None,
        display_name: String::from_str("卫宫"),
        triggers: TriggerQuotes {
            game_start: vec![String::from_str("I am the bone of my sword."), String::from_str("开始吧。")],
            kill: vec![String::from_str("Trace on。"), String::from_str("结束了。")],
            death: vec![String::from_str("身体...是剑骨头做的。"), String::from_str("咳...")],
            assist: vec![String::from_str("投影完毕。")],
            taunt: TauntBoxes {
                boxes: vec![vec![String::from_str("你就这点本事？")], vec![String::from_str("无限剑制！")]],
            },
        },
        panels: vec![PanelGroup { name: String::from_str("集合"), lines: vec![String::from_str("集合"), String::from_str("打团")] }, PanelGroup { name: String::from_str("撤退"), lines: vec![String::from_str("撤退")] }],
    };
    assert(views(res.triggers.game_start@) =~= seq!["I am the bone of my sword."@, "开始吧。"@]);
    assert(views(res.triggers.kill@) =~= seq!["Trace on。"@, "结束了。"@]);
    assert(views(res.triggers.death@) =~= seq!["身体...是剑骨头做的。"@, "咳..."@]);
    assert(views(res.triggers.assist@) =~= seq!["投影完毕。"@]);
    assert(views(res.triggers.taunt.boxes@[0]@) =~= seq!["你就这点本事？"@]);
    assert(views(res.triggers.taunt.boxes@[1]@) =~= seq!["无限剑制！"@]);
    assert(views(res.panels@[0].lines@) =~= seq!["集合"@, "打团"@]);
    assert(views(res.panels@[1].lines@) =~= seq!["撤退"@]);
    res
}

fn scheme_kirito() -> (res: HeroScheme)
    ensures
        scheme_is(res, "桐人"@, seq!["Link Start！"@, "要上了。"@], seq!["星爆气流斩！"@, "切换。"@], seq!["HP 归零..."@], seq!["切换得好。"@], seq![seq!["你太慢了。"@], seq!["这可不是游戏。"@]], seq![("集合"@, seq!["集合"@]), ("撤退"@, seq!["撤退"@])]),
{
    let res = HeroScheme {
        hero_name: String::from_str("桐人"),
        skin_name: None,
        display_name: String::from_str("桐人"),
        triggers: TriggerQuotes {
            game_start: vec![String::from_str("Link Start！"), String::from_str("要上了。")],
            kill: vec![String::from_str("星爆气流斩！"), String::from_str("切换。")],
            death: vec![String::from_str("HP 归零...")],
            assist: vec![String::from_str("切换得好。")],
            taunt: TauntBoxes {
                boxes: vec![vec![String::from_str("你太慢了。")], vec![String::from_str("这可不是游戏。")]],
            },
        },
        panels: vec![PanelGroup { name: String::from_str("集合"), lines: vec![String::from_str("集合")] }, PanelGroup { name: String::from_str("撤退"), lines: vec![String::from_str("撤退")] }],
    };
    assert(views(res.triggers.game_start@) =~= seq!["Link Start！"@, "要上了。"@]);
    assert(views(res.triggers.kill@) =~= seq!["星爆气流斩！"@, "切换。"@]);
    assert(views(res.triggers.death@) =~= seq!["HP 归零..."@]);
    assert(views(res.triggers.assist@) =~= seq!["切换得好。"@]);
    assert(views(res.triggers.taunt.boxes@[0]@) =~= seq!["你太慢了。"@]);
    assert(views(res.triggers.taunt.boxes@[1]@) =~= seq!["这可不是游戏。"@]);
    assert(views(res.panels@[0].lines@) =~= seq!["集合"@]);
    assert(views(res.panels@[1].lines@) =~= seq!["撤退"@]);
    res
}

/// The schemes that ship with the program, written out as files on first
/// start for the user to edit: 绯村剑心, 卫宫 and 桐人.
pub fn builtin_schemes() -> (res: Vec<HeroScheme>)
    ensures
        res@.len() == 3,
        scheme_is(res@[0], "绯村剑心"@, seq!["剑是凶器，剑术是杀人之术。"@, "飞天御剑流，参上。"@], seq!["你已经死了。"@, "不过如此。"@, "下一个。"@], seq!["我的我的..."@, "剑，断了。"@], seq!["好配合。"@, "干得漂亮。"@], seq![seq!["你搁这刮痧呢？"@, "就这？"@], seq!["吾之生涯一片无悔。"@, "这便是我的全部了。"@]], seq![("集合"@, seq!["来这里"@, "集合打团"@, "别分散"@, "跟上"@]), ("撤退"@, seq!["撤！"@, "别打了快跑"@, "回防"@])]),
        scheme_is(res@[1], "卫宫"@, seq!["I am the bone of my sword."@, "开始吧。"@], seq!["Trace on。"@, "结束了。"@], seq!["身体...是剑骨头做的。"@, "咳..."@], seq!["投影完毕。"@], seq![seq!["你就这点本事？"@], seq!["无限剑制！"@]], seq![("集合"@, seq!["集合"@, "打团"@]), ("撤退"@, seq!["撤退"@])]),
        scheme_is(res@[2], "桐人"@, seq!["Link Start！"@, "要上了。"@], seq!["星爆气流斩！"@, "切换。"@], seq!["HP 归零..."@], seq!["切换得好。"@], seq![seq!["你太慢了。"@], seq!["这可不是游戏。"@]], seq![("集合"@, seq!["集合"@]), ("撤退"@, seq!["撤退"@])]),
{
    vec![scheme_kenshin(), scheme_emiya(), scheme_kirito()]
}

} // verus!
