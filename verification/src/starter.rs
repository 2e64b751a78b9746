//! Smart starters: picking a mature open-source project to build on from a
//! one-sentence goal, and the texts that hand that choice to the agent.

use vstd::prelude::*;
use crate::text::{chars_of, chars_start_with, contains, decimal, lowercase, str_contains, str_eq, to_lower, trim, trim_seq, u64_to_decimal};
use crate::protocol::join_spec;

verus! {

/// The file the starter blueprint is written to in the workspace.
pub const BLUEPRINT_FILENAME: &'static str = "KACF_STARTER_BLUEPRINT.md";

/// The directory a starter project is cloned into.
pub const STARTER_DIRNAME: &'static str = "starter_source";

/// An open-source project to start from.
#[derive(Debug, Clone)]
pub struct StarterRepo {
    pub name: &'static str,
    pub url: &'static str,
    pub quickstart: Vec<&'static str>,
    pub notes: &'static str,
}

/// The kind of product a goal asks for, and the projects to start from.
#[derive(Debug, Clone)]
pub struct StarterBlueprint {
    pub scene: &'static str,
    pub reason: &'static str,
    pub repos: Vec<StarterRepo>,
}

/// The views of static strings.
pub open spec fn strs_view(v: Seq<&'static str>) -> Seq<Seq<char>> {
    v.map_values(|s: &'static str| s@)
}

/// A repository as (name, url, quickstart commands, notes).
pub open spec fn repo_view(r: StarterRepo) -> (Seq<char>, Seq<char>, Seq<Seq<char>>, Seq<char>) {
    (r.name@, r.url@, strs_view(r.quickstart@), r.notes@)
}

/// The views of repositories.
pub open spec fn repos_view(v: Seq<StarterRepo>) -> Seq<(Seq<char>, Seq<char>, Seq<Seq<char>>, Seq<char>)> {
    v.map_values(|r: StarterRepo| repo_view(r))
}

/// Some key occurs in `text`.
pub open spec fn has_any_spec(text: Seq<char>, keys: Seq<Seq<char>>) -> bool {
    exists|i: int| 0 <= i < keys.len() && #[trigger] contains(text, keys[i])
}

/// Whether one of `keys` occurs in `text`.
pub fn has_any(text: &str, keys: &[&str]) -> (b: bool)
    ensures
        b == has_any_spec(text@, keys@.map_values(|k: &str| k@)),
{
    let ghost kv = keys@.map_values(|k: &str| k@);
    let mut i: usize = 0;
    while i < keys.len()
        invariant
            i <= keys.len(),
            kv == keys@.map_values(|k: &str| k@),
            forall|j: int| 0 <= j < i ==> !contains(text@, #[trigger] kv[j]),
        decreases keys.len() - i,
    {
        if str_contains(text, keys[i]) {
            assert(contains(text@, kv[i as int]));
            return true;
        }
        i += 1;
    }
    false
}

/// The keys of each kind of product, in the order they are tried.
pub open spec fn kind_keys(k: int) -> Seq<Seq<char>> {
    if k == 0 {
        seq!["电商"@, "商城"@, "shop"@, "store"@, "order"@, "payment"@, "sku"@]
    } else if k == 1 {
        seq!["博客"@, "内容"@, "cms"@, "新闻"@, "文章"@, "knowledge base"@]
    } else if k == 2 {
        seq!["自动化"@, "工作流"@, "workflow"@, "审批"@, "表单"@, "internal tool"@]
    } else {
        seq!["聊天"@, "客服"@, "im"@, "chat"@, "社区"@, "forum"@, "消息"@]
    }
}

/// The kind of a goal: the first whose keys occur in the lower-cased goal
/// (e-commerce, content, workflow, community), else 4 (general).
pub open spec fn blueprint_kind(goal: Seq<char>) -> int {
    let g = lowercase(goal);
    if has_any_spec(g, kind_keys(0)) {
        0
    } else if has_any_spec(g, kind_keys(1)) {
        1
    } else if has_any_spec(g, kind_keys(2)) {
        2
    } else if has_any_spec(g, kind_keys(3)) {
        3
    } else {
        4
    }
}

/// The scene of each kind.
pub open spec fn scene_of(k: int) -> Seq<char> {
    if k == 0 {
        "电商类产品"@
    } else if k == 1 {
        "内容/CMS 类产品"@
    } else if k == 2 {
        "自动化/内部工具"@
    } else if k == 3 {
        "沟通/社区类产品"@
    } else {
        "通用 SaaS/Web 应用"@
    }
}

/// Why each kind's projects were picked.
pub open spec fn reason_of(k: int) -> Seq<char> {
    if k == 0 {
        "目标包含交易、商品、订单相关能力，优先复用成熟电商骨架。"@
    } else if k == 1 {
        "目标包含内容管理或发布能力，优先复用成熟 CMS 平台。"@
    } else if k == 2 {
        "目标强调流程自动化或内部系统，优先复用低代码与编排平台。"@
    } else if k == 3 {
        "目标强调实时消息与社区互动，优先复用成熟沟通系统。"@
    } else {
        "目标不属于特定垂类，优先复用通用全栈底座。"@
    }
}

/// The projects of each kind, most recommended first.
pub open spec fn repos_of(k: int) -> Seq<(Seq<char>, Seq<char>, Seq<Seq<char>>, Seq<char>)> {
    if k == 0 {
        seq![
            ("Medusa Starter"@, "https://github.com/medusajs/medusa"@, seq!["npm install"@, "npm run dev"@], "电商后端能力成熟，适合快速搭建下单/支付/库存流程。"@),
            ("Vendure"@, "https://github.com/vendure-ecommerce/vendure"@, seq!["npm install"@, "npm run dev"@], "TypeScript 电商框架，插件生态完整。"@),
        ]
    } else if k == 1 {
        seq![
            ("Strapi"@, "https://github.com/strapi/strapi"@, seq!["yarn install"@, "yarn develop"@], "Headless CMS 生态成熟，适合内容管理后台。"@),
            ("Ghost"@, "https://github.com/TryGhost/Ghost"@, seq!["yarn install"@, "yarn dev"@], "博客/内容发布系统，开箱能力强。"@),
        ]
    } else if k == 2 {
        seq![
            ("n8n"@, "https://github.com/n8n-io/n8n"@, seq!["pnpm install"@, "pnpm start"@], "自动化编排成熟方案，适合业务流程自动化。"@),
            ("Appsmith"@, "https://github.com/appsmithorg/appsmith"@, seq!["docker compose up -d"@], "低代码平台，适合快速搭建内部工具。"@),
        ]
    } else if k == 3 {
        seq![
            ("Chatwoot"@, "https://github.com/chatwoot/chatwoot"@, seq!["docker compose up -d"@], "客服/工单/实时沟通一体化方案。"@),
            ("Rocket.Chat"@, "https://github.com/RocketChat/Rocket.Chat"@, seq!["docker compose up -d"@], "企业沟通平台，适合聊天协作产品。"@),
        ]
    } else {
        seq![
            ("Supabase"@, "https://github.com/supabase/supabase"@, seq!["docker compose up -d"@], "后端即服务，账号/数据库/存储能力完整。"@),
            ("Next.js"@, "https://github.com/vercel/next.js"@, seq!["pnpm install"@, "pnpm dev"@], "前端与全栈基础设施成熟，生态广。"@),
        ]
    }
}

fn repo(name: &'static str, url: &'static str, quickstart: Vec<&'static str>, notes: &'static str) -> (r: StarterRepo)
    ensures
        repo_view(r) == (name@, url@, strs_view(quickstart@), notes@),
{
    StarterRepo { name, url, quickstart, notes }
}

fn qs1(a: &'static str) -> (r: Vec<&'static str>)
    ensures
        strs_view(r@) == seq![a@],
{
    let v = vec![a];
    assert(strs_view(v@) =~= seq![a@]);
    v
}

fn qs2(a: &'static str, b: &'static str) -> (r: Vec<&'static str>)
    ensures
        strs_view(r@) == seq![a@, b@],
{
    let v = vec![a, b];
    assert(strs_view(v@) =~= seq![a@, b@]);
    v
}

fn two(a: StarterRepo, b: StarterRepo) -> (r: Vec<StarterRepo>)
    ensures
        repos_view(r@) == seq![repo_view(a), repo_view(b)],
{
    let ghost av = repo_view(a);
    let ghost bv = repo_view(b);
    let v = vec![a, b];
    assert(repos_view(v@) =~= seq![av, bv]);
    v
}

fn kind_repos(k: u8) -> (r: Vec<StarterRepo>)
    ensures
        repos_view(r@) == repos_of(k as int),
{
    let v = if k == 0 {
        two(
            repo("Medusa Starter", "https://github.com/medusajs/medusa", qs2("npm install", "npm run dev"), "电商后端能力成熟，适合快速搭建下单/支付/库存流程。"),
            repo("Vendure", "https://github.com/vendure-ecommerce/vendure", qs2("npm install", "npm run dev"), "TypeScript 电商框架，插件生态完整。"),
        )
    } else if k == 1 {
        two(
            repo("Strapi", "https://github.com/strapi/strapi", qs2("yarn install", "yarn develop"), "Headless CMS 生态成熟，适合内容管理后台。"),
            repo("Ghost", "https://github.com/TryGhost/Ghost", qs2("yarn install", "yarn dev"), "博客/内容发布系统，开箱能力强。"),
        )
    } else if k == 2 {
        two(
            repo("n8n", "https://github.com/n8n-io/n8n", qs2("pnpm install", "pnpm start"), "自动化编排成熟方案，适合业务流程自动化。"),
            repo("Appsmith", "https://github.com/appsmithorg/appsmith", qs1("docker compose up -d"), "低代码平台，适合快速搭建内部工具。"),
        )
    } else if k == 3 {
        two(
            repo("Chatwoot", "https://github.com/chatwoot/chatwoot", qs1("docker compose up -d"), "客服/工单/实时沟通一体化方案。"),
            repo("Rocket.Chat", "https://github.com/RocketChat/Rocket.Chat", qs1("docker compose up -d"), "企业沟通平台，适合聊天协作产品。"),
        )
    } else {
        two(
            repo("Supabase", "https://github.com/supabase/supabase", qs1("docker compose up -d"), "后端即服务，账号/数据库/存储能力完整。"),
            repo("Next.js", "https://github.com/vercel/next.js", qs2("pnpm install", "pnpm dev"), "前端与全栈基础设施成熟，生态广。"),
        )
    };
    assert(repos_view(v@) =~= repos_of(k as int));
    v
}

/// Picks the starter blueprint for a goal (see `blueprint_kind`).
pub fn select_blueprint(goal: &str) -> (b: StarterBlueprint)
    ensures
        b.scene@ == scene_of(blueprint_kind(goal@)),
        b.reason@ == reason_of(blueprint_kind(goal@)),
        repos_view(b.repos@) == repos_of(blueprint_kind(goal@)),
{
    let g = to_lower(goal);
    let k0: Vec<&str> = vec!["电商", "商城", "shop", "store", "order", "payment", "sku"];
    assert(k0@.map_values(|k: &str| k@) =~= kind_keys(0));
    if has_any(g.as_str(), k0.as_slice()) {
        return StarterBlueprint {
            scene: "电商类产品",
            reason: "目标包含交易、商品、订单相关能力，优先复用成熟电商骨架。",
            repos: kind_repos(0),
        };
    }
    let k1: Vec<&str> = vec!["博客", "内容", "cms", "新闻", "文章", "knowledge base"];
    assert(k1@.map_values(|k: &str| k@) =~= kind_keys(1));
    if has_any(g.as_str(), k1.as_slice()) {
        return StarterBlueprint {
            scene: "内容/CMS 类产品",
            reason: "目标包含内容管理或发布能力，优先复用成熟 CMS 平台。",
            repos: kind_repos(1),
        };
    }
    let k2: Vec<&str> = vec!["自动化", "工作流", "workflow", "审批", "表单", "internal tool"];
    assert(k2@.map_values(|k: &str| k@) =~= kind_keys(2));
    if has_any(g.as_str(), k2.as_slice()) {
        return StarterBlueprint {
            scene: "自动化/内部工具",
            reason: "目标强调流程自动化或内部系统，优先复用低代码与编排平台。",
            repos: kind_repos(2),
        };
    }
    let k3: Vec<&str> = vec!["聊天", "客服", "im", "chat", "社区", "forum", "消息"];
    assert(k3@.map_values(|k: &str| k@) =~= kind_keys(3));
    if has_any(g.as_str(), k3.as_slice()) {
        return StarterBlueprint {
            scene: "沟通/社区类产品",
            reason: "目标强调实时消息与社区互动，优先复用成熟沟通系统。",
            repos: kind_repos(3),
        };
    }
    StarterBlueprint {
        scene: "通用 SaaS/Web 应用",
        reason: "目标不属于特定垂类，优先复用通用全栈底座。",
        repos: kind_repos(4),
    }
}

/// A workspace entry that is the user's own: not `.`/`..`, not an
/// `.autocoding_` file, not the blueprint nor the starter directory.
pub open spec fn user_entry(name: Seq<char>) -> bool {
    &&& name != "."@
    &&& name != ".."@
    &&& !crate::text::starts_with(name, ".autocoding_"@)
    &&& name != BLUEPRINT_FILENAME@
    &&& name != STARTER_DIRNAME@
}

/// Whether a workspace holds user code, given the names of its entries.
pub fn workspace_has_user_code(names: &[String]) -> (b: bool)
    ensures
        b == exists|i: int| 0 <= i < names@.len() && user_entry(#[trigger] names@[i]@),
{
    let mut i: usize = 0;
    while i < names.len()
        invariant
            i <= names.len(),
            forall|j: int| 0 <= j < i ==> !user_entry(#[trigger] names@[j]@),
        decreases names.len() - i,
    {
        let n = names[i].as_str();
        let nv = chars_of(n);
        if !str_eq(n, ".") && !str_eq(n, "..") && !chars_start_with(&nv, &chars_of(".autocoding_"))
            && !str_eq(n, BLUEPRINT_FILENAME) && !str_eq(n, STARTER_DIRNAME) {
            assert(user_entry(names@[i as int]@));
            return true;
        }
        i += 1;
    }
    false
}

/// The blueprint's entry for repository number `i` (from 0).
pub open spec fn repo_entry(i: nat, r: (Seq<char>, Seq<char>, Seq<Seq<char>>, Seq<char>)) -> Seq<char> {
    decimal(i + 1) + ". **"@ + r.0 + "**\n"@
        + "   - Repo: `"@ + r.1 + "`\n"@
        + "   - Quickstart: `"@ + join_spec(r.2, " && "@) + "`\n"@
        + "   - Note: "@ + r.3 + "\n"@
}

/// The entries of the first `n` repositories.
pub open spec fn repo_entries(repos: Seq<(Seq<char>, Seq<char>, Seq<Seq<char>>, Seq<char>)>, n: int) -> Seq<char>
    decreases n,
{
    if n <= 0 {
        Seq::empty()
    } else {
        repo_entries(repos, n - 1) + repo_entry((n - 1) as nat, repos[n - 1])
    }
}

/// The blueprint written to the workspace for `goal`.
pub open spec fn blueprint_text(goal: Seq<char>, scene: Seq<char>, reason: Seq<char>,
    repos: Seq<(Seq<char>, Seq<char>, Seq<Seq<char>>, Seq<char>)>, clone_note: Seq<char>) -> Seq<char> {
    "# KACF Smart Starter Blueprint\n\n"@ + "## 用户一句话目标\n\n"@ + trim_seq(goal)
        + "\n\n## 识别场景\n\n"@ + scene
        + "\n\n## 选择理由\n\n"@ + reason
        + "\n\n## 优先复用开源仓库\n\n"@ + repo_entries(repos, repos.len() as int)
        + "\n## 自动开局状态\n\n"@ + clone_note
        + "\n\n## 执行要求（给 AI）\n\n- 优先在现有成熟项目基础上改造，而不是从零重写。\n- 面向完全不懂电脑的小白：默认配置可直接启动。\n- 每一轮都必须产出可验证结果（启动、测试、可访问页面）。\n"@
}

fn join_strs(parts: &Vec<&'static str>, sep: &str) -> (r: String)
    ensures
        r@ == join_spec(strs_view(parts@), sep@),
{
    let ghost pv = strs_view(parts@);
    let mut out = String::new();
    let mut i: usize = 0;
    assert(pv.take(0) =~= Seq::<Seq<char>>::empty());
    while i < parts.len()
        invariant
            pv == strs_view(parts@),
            i <= parts.len(),
            out@ == join_spec(pv.take(i as int), sep@),
        decreases parts.len() - i,
    {
        assert(pv.take(i + 1).drop_last() =~= pv.take(i as int));
        if i > 0 {
            out.append(sep);
        }
        out.append(parts[i]);
        proof {
            if i == 0 {
                assert(out@ =~= pv.take(1)[0]);
            }
        }
        i += 1;
    }
    assert(pv.take(parts.len() as int) =~= pv);
    out
}

fn repo_entry_text(i: u64, r: &StarterRepo) -> (t: String)
    requires
        i < u64::MAX,
    ensures
        t@ == repo_entry(i as nat, repo_view(*r)),
{
    let mut c = u64_to_decimal(i + 1);
    c.append(". **");
    c.append(r.name);
    c.append("**\n");
    c.append("   - Repo: `");
    c.append(r.url);
    c.append("`\n");
    c.append("   - Quickstart: `");
    c.append(join_strs(&r.quickstart, " && ").as_str());
    c.append("`\n");
    c.append("   - Note: ");
    c.append(r.notes);
    c.append("\n");
    assert(c@ =~= repo_entry(i as nat, repo_view(*r)));
    c
}

/// The blueprint text for `goal`, the picked blueprint and the note on
/// cloning (see `blueprint_text`).
pub fn blueprint_markdown(goal: &str, picked: &StarterBlueprint, clone_note: &str) -> (r: String)
    requires
        picked.repos@.len() < u64::MAX,
    ensures
        r@ == blueprint_text(goal@, picked.scene@, picked.reason@, repos_view(picked.repos@), clone_note@),
{
    let ghost rv = repos_view(picked.repos@);
    let mut c = String::new();
    c.append("# KACF Smart Starter Blueprint\n\n");
    c.append("## 用户一句话目标\n\n");
    c.append(trim(goal).as_str());
    c.append("\n\n## 识别场景\n\n");
    c.append(picked.scene);
    c.append("\n\n## 选择理由\n\n");
    c.append(picked.reason);
    c.append("\n\n## 优先复用开源仓库\n\n");
    let ghost head = c@;
    let mut i: usize = 0;
    while i < picked.repos.len()
        invariant
            i <= picked.repos.len(),
            picked.repos@.len() < u64::MAX,
            rv == repos_view(picked.repos@),
            c@ == head + repo_entries(rv, i as int),
        decreases picked.repos.len() - i,
    {
        let r = &picked.repos[i];
        assert(rv[i as int] == repo_view(*r));
        let e = repo_entry_text(i as u64, r);
        c.append(e.as_str());
        assert(c@ =~= head + repo_entries(rv, i + 1));
        i += 1;
    }
    c.append("\n## 自动开局状态\n\n");
    c.append(clone_note);
    c.append("\n\n## 执行要求（给 AI）\n\n- 优先在现有成熟项目基础上改造，而不是从零重写。\n- 面向完全不懂电脑的小白：默认配置可直接启动。\n- 每一轮都必须产出可验证结果（启动、测试、可访问页面）。\n");
    assert(c@ =~= blueprint_text(goal@, picked.scene@, picked.reason@, rv, clone_note@));
    c
}

/// The candidate lines of the first `n` repositories.
pub open spec fn candidate_lines(repos: Seq<(Seq<char>, Seq<char>, Seq<Seq<char>>, Seq<char>)>, n: int) -> Seq<char>
    decreases n,
{
    if n <= 0 {
        Seq::empty()
    } else {
        candidate_lines(repos, n - 1) + "- "@ + repos[n - 1].0 + " ("@ + repos[n - 1].1 + ")\n"@
    }
}

/// The text added to the agent's instructions for a picked blueprint whose
/// file is at `blueprint_path`.
pub open spec fn injection_text(scene: Seq<char>, reason: Seq<char>,
    repos: Seq<(Seq<char>, Seq<char>, Seq<Seq<char>>, Seq<char>)>, blueprint_path: Seq<char>) -> Seq<char> {
    "\n[SMART_STARTER]\n"@ + "你必须优先复用成熟开源项目，不要从零造轮子。\n"@
        + "识别场景："@ + scene + "。\n"@
        + "选择理由："@ + reason + "。\n"@
        + "候选仓库（按优先级）：\n"@ + candidate_lines(repos, repos.len() as int)
        + "工作区开局蓝图文件：`"@ + blueprint_path + "`。\n"@
        + "目标用户是完全不懂电脑的小白：默认配置应可直接运行。\n"@
}

/// The instructions that tell the agent to build on the picked projects
/// (see `injection_text`).
pub fn starter_injection(picked: &StarterBlueprint, blueprint_path: &str) -> (r: String)
    ensures
        r@ == injection_text(picked.scene@, picked.reason@, repos_view(picked.repos@), blueprint_path@),
{
    let ghost rv = repos_view(picked.repos@);
    let mut t = String::new();
    t.append("\n[SMART_STARTER]\n");
    t.append("你必须优先复用成熟开源项目，不要从零造轮子。\n");
    t.append("识别场景：");
    t.append(picked.scene);
    t.append("。\n");
    t.append("选择理由：");
    t.append(picked.reason);
    t.append("。\n");
    t.append("候选仓库（按优先级）：\n");
    let ghost head = t@;
    let mut i: usize = 0;
    while i < picked.repos.len()
        invariant
            i <= picked.repos.len(),
            rv == repos_view(picked.repos@),
            t@ == head + candidate_lines(rv, i as int),
        decreases picked.repos.len() - i,
    {
        let r = &picked.repos[i];
        assert(rv[i as int] == repo_view(*r));
        t.append("- ");
        t.append(r.name);
        t.append(" (");
        t.append(r.url);
        t.append(")\n");
        assert(t@ =~= head + candidate_lines(rv, i + 1));
        i += 1;
    }
    t.append("工作区开局蓝图文件：`");
    t.append(blueprint_path);
    t.append("`。\n");
    t.append("目标用户是完全不懂电脑的小白：默认配置应可直接运行。\n");
    assert(t@ =~= injection_text(picked.scene@, picked.reason@, rv, blueprint_path@));
    t
}

} // verus!
