//! The localized user-facing message table: a pure lookup from language
//! and message key to fixed text, with no global state. The locale is passed
//! explicitly by the caller.

use vstd::prelude::*;

verus! {

/// The display languages offered at startup.
#[derive(Clone, Copy)]
pub enum Language {
    En,
    Zh,
}

/// The keys of the message table.
#[derive(Clone, Copy)]
pub enum MsgKey {
    UsageHelp,
    Title,
    InitModePrompt,
    NewItemProject,
    InitInCurrent,
    ProjectNamePrompt,
    NameTooLong,
    InvalidChars,
    TargetDir,
    DirExistsPrompt,
    Cancelled,
    CreateDir,
    AddDir,
    EnvPrefixPrompt,
    NoPrefix,
    WithPrefix,
    PrefixPrompt,
    UpdateDotEnv,
    SkipUsageMd,
    GitInitPrompt,
    Yes,
    No,
    GitInitialized,
    GitConfigMissing,
    InitialCommitPrompt,
    GitAddFailed,
    GitCommitFailed,
    CommitSuccess,
    LicensePrompt,
    SkipLicense,
    Proprietary,
    IncrementalUpdateDone,
    InitDone,
    GuidePath,
    ReadmePath,
    EnvPath,
    PrefixAdded,
    DotenvTip,
}

/// The message table, as the mathematical function the lookup computes.
pub open spec fn message_text(lang: Language, key: MsgKey) -> Seq<char> {
    match (lang, key) {
        (_, MsgKey::UsageHelp) => "yuuskel — Initialize standardized project structure\n\nUsage: yuuskel"@,
        (Language::Zh, MsgKey::Title) => "🛠️  yuuskel — 初始化通用项目结构"@,
        (Language::En, MsgKey::Title) => "🛠️  yuuskel — Initialize standardized project structure"@,
        (Language::Zh, MsgKey::InitModePrompt) => "❓ 初始化方式"@,
        (Language::En, MsgKey::InitModePrompt) => "❓ Initialization mode"@,
        (Language::Zh, MsgKey::NewItemProject) => "新建项目文件夹"@,
        (Language::En, MsgKey::NewItemProject) => "Create new project folder"@,
        (Language::Zh, MsgKey::InitInCurrent) => "在当前目录初始化"@,
        (Language::En, MsgKey::InitInCurrent) => "Initialize in current directory"@,
        (Language::Zh, MsgKey::ProjectNamePrompt) => "📁 项目文件夹名称"@,
        (Language::En, MsgKey::ProjectNamePrompt) => "📁 Project folder name"@,
        (Language::Zh, MsgKey::NameTooLong) => "项目名称过长（最大支持100个字符）"@,
        (Language::En, MsgKey::NameTooLong) => "Project name too long (max 100 characters)"@,
        (Language::Zh, MsgKey::InvalidChars) => "项目名称包含非法字符"@,
        (Language::En, MsgKey::InvalidChars) => "Project name contains invalid characters"@,
        (Language::Zh, MsgKey::TargetDir) => "✅ 目标目录: "@,
        (Language::En, MsgKey::TargetDir) => "✅ Target directory: "@,
        (Language::Zh, MsgKey::DirExistsPrompt) => "⚠️  目标文件夹已存在，是否继续？"@,
        (Language::En, MsgKey::DirExistsPrompt) => "⚠️  Target folder already exists. Continue?"@,
        (Language::Zh, MsgKey::Cancelled) => "❌ 操作已取消"@,
        (Language::En, MsgKey::Cancelled) => "❌ Operation cancelled"@,
        (Language::Zh, MsgKey::CreateDir) => "➕ 创建目录: "@,
        (Language::En, MsgKey::CreateDir) => "➕ Creating directory: "@,
        (Language::Zh, MsgKey::AddDir) => "➕ 补充目录: "@,
        (Language::En, MsgKey::AddDir) => "➕ Adding missing directory: "@,
        (Language::Zh, MsgKey::EnvPrefixPrompt) => "🔤 是否为环境变量添加项目前缀？（避免多项目冲突）"@,
        (Language::En, MsgKey::EnvPrefixPrompt) => "🔤 Add prefix to env vars? (Avoid conflicts across projects)"@,
        (Language::Zh, MsgKey::NoPrefix) => "否（使用通用名称，如 OUTPUT_DIR）"@,
        (Language::En, MsgKey::NoPrefix) => "No (use generic names like OUTPUT_DIR)"@,
        (Language::Zh, MsgKey::WithPrefix) => "是（如 MYPROJ_OUTPUT_DIR）"@,
        (Language::En, MsgKey::WithPrefix) => "Yes (e.g., MYPROJ_OUTPUT_DIR)"@,
        (Language::Zh, MsgKey::PrefixPrompt) => "🔤 项目前缀（建议大写，如 MYTOOL）"@,
        (Language::En, MsgKey::PrefixPrompt) => "🔤 Project prefix (uppercase recommended, e.g., MYTOOL)"@,
        (Language::Zh, MsgKey::UpdateDotEnv) => "🔄 更新: "@,
        (Language::En, MsgKey::UpdateDotEnv) => "🔄 Updating: "@,
        (Language::Zh, MsgKey::SkipUsageMd) => "ℹ️  USAGE.md 已存在，跳过更新"@,
        (Language::En, MsgKey::SkipUsageMd) => "ℹ️  USAGE.md already exists, skipping update"@,
        (Language::Zh, MsgKey::GitInitPrompt) => "❓ 是否初始化 Git 仓库？"@,
        (Language::En, MsgKey::GitInitPrompt) => "❓ Initialize Git repository?"@,
        (Language::Zh, MsgKey::Yes) => "是"@,
        (Language::En, MsgKey::Yes) => "Yes"@,
        (Language::Zh, MsgKey::No) => "否"@,
        (Language::En, MsgKey::No) => "No"@,
        (Language::Zh, MsgKey::GitInitialized) => "📦 Git 仓库已初始化"@,
        (Language::En, MsgKey::GitInitialized) => "📦 Git repository initialized"@,
        (Language::Zh, MsgKey::GitConfigMissing) => "⚠️  Git 用户信息未配置，跳过初始提交\n💡 运行以下命令设置：\n  git config --global user.name \"Your Name\"\n  git config --global user.email \"you@example.com\""@,
        (Language::En, MsgKey::GitConfigMissing) => "⚠️  Git user info not configured, skipping initial commit\n💡 Run these commands:\n  git config --global user.name \"Your Name\"\n  git config --global user.email \"you@example.com\""@,
        (Language::Zh, MsgKey::InitialCommitPrompt) => "💾 是否创建初始提交？"@,
        (Language::En, MsgKey::InitialCommitPrompt) => "💾 Create initial commit?"@,
        (Language::Zh, MsgKey::GitAddFailed) => "⚠️  Git 添加失败: {}\n💡 建议检查：1. 工作区文件权限 2. Git 配置（user.name/user.email）"@,
        (Language::En, MsgKey::GitAddFailed) => "⚠️  Git add failed: {}\n💡 Check: 1. File permissions 2. Git config (user.name/user.email)"@,
        (Language::Zh, MsgKey::GitCommitFailed) => "⚠️  Git 提交失败: {}"@,
        (Language::En, MsgKey::GitCommitFailed) => "⚠️  Git commit failed: {}"@,
        (Language::Zh, MsgKey::CommitSuccess) => "💾 初始提交创建成功"@,
        (Language::En, MsgKey::CommitSuccess) => "💾 Initial commit created successfully"@,
        (Language::Zh, MsgKey::LicensePrompt) => "📜 选择开源许可证（可选）"@,
        (Language::En, MsgKey::LicensePrompt) => "📜 Choose an open-source license (optional)"@,
        (Language::Zh, MsgKey::SkipLicense) => "跳过（不生成 LICENSE）"@,
        (Language::En, MsgKey::SkipLicense) => "Skip (do not generate LICENSE)"@,
        (Language::Zh, MsgKey::Proprietary) => "Proprietary（专有）"@,
        (Language::En, MsgKey::Proprietary) => "Proprietary"@,
        (Language::Zh, MsgKey::IncrementalUpdateDone) => "✅ 项目结构已增量更新！"@,
        (Language::En, MsgKey::IncrementalUpdateDone) => "✅ Project structure incrementally updated!"@,
        (Language::Zh, MsgKey::InitDone) => "✅ 通用项目初始化完成！"@,
        (Language::En, MsgKey::InitDone) => "✅ Standardized project initialized!"@,
        (Language::Zh, MsgKey::GuidePath) => "📄 查看使用指南: {}/{}"@,
        (Language::En, MsgKey::GuidePath) => "📄 Usage guide: {}/{}"@,
        (Language::Zh, MsgKey::ReadmePath) => "📄 项目入口: {}/{}"@,
        (Language::En, MsgKey::ReadmePath) => "📄 Project entry: {}/{}"@,
        (Language::Zh, MsgKey::EnvPath) => "⚙️  环境变量路径: {}/{}"@,
        (Language::En, MsgKey::EnvPath) => "⚙️  Env file path: {}/{}"@,
        (Language::Zh, MsgKey::PrefixAdded) => "🔑 环境变量已添加前缀: "@,
        (Language::En, MsgKey::PrefixAdded) => "🔑 Env vars prefixed with: "@,
        (Language::Zh, MsgKey::DotenvTip) => "💡 提示：在脚本中通过 dotenv 加载路径，避免硬编码！"@,
        (Language::En, MsgKey::DotenvTip) => "💡 Tip: Load paths via dotenv in scripts to avoid hardcoding!"@,
    }
}

impl Language {
    /// The selectable languages with their display names, English first.
    pub fn all() -> (v: Vec<(&'static str, Language)>)
        ensures
            v@.len() == 2,
            v@[0].0@ == "English"@,
            v@[0].1 == Language::En,
            v@[1].0@ == "中文"@,
            v@[1].1 == Language::Zh,
    {
        vec![("English", Language::En), ("中文", Language::Zh)]
    }

    /// Pure localized lookup: the fixed text for a language and key.
    pub fn msg(&self, key: MsgKey) -> (r: &'static str)
        ensures
            r@ == message_text(*self, key),
    {
        match (*self, key) {
            (_, MsgKey::UsageHelp) => "yuuskel — Initialize standardized project structure\n\nUsage: yuuskel",
            (Language::Zh, MsgKey::Title) => "🛠️  yuuskel — 初始化通用项目结构",
            (Language::En, MsgKey::Title) => "🛠️  yuuskel — Initialize standardized project structure",
            (Language::Zh, MsgKey::InitModePrompt) => "❓ 初始化方式",
            (Language::En, MsgKey::InitModePrompt) => "❓ Initialization mode",
            (Language::Zh, MsgKey::NewItemProject) => "新建项目文件夹",
            (Language::En, MsgKey::NewItemProject) => "Create new project folder",
            (Language::Zh, MsgKey::InitInCurrent) => "在当前目录初始化",
            (Language::En, MsgKey::InitInCurrent) => "Initialize in current directory",
            (Language::Zh, MsgKey::ProjectNamePrompt) => "📁 项目文件夹名称",
            (Language::En, MsgKey::ProjectNamePrompt) => "📁 Project folder name",
            (Language::Zh, MsgKey::NameTooLong) => "项目名称过长（最大支持100个字符）",
            (Language::En, MsgKey::NameTooLong) => "Project name too long (max 100 characters)",
            (Language::Zh, MsgKey::InvalidChars) => "项目名称包含非法字符",
            (Language::En, MsgKey::InvalidChars) => "Project name contains invalid characters",
            (Language::Zh, MsgKey::TargetDir) => "✅ 目标目录: ",
            (Language::En, MsgKey::TargetDir) => "✅ Target directory: ",
            (Language::Zh, MsgKey::DirExistsPrompt) => "⚠️  目标文件夹已存在，是否继续？",
            (Language::En, MsgKey::DirExistsPrompt) => "⚠️  Target folder already exists. Continue?",
            (Language::Zh, MsgKey::Cancelled) => "❌ 操作已取消",
            (Language::En, MsgKey::Cancelled) => "❌ Operation cancelled",
            (Language::Zh, MsgKey::CreateDir) => "➕ 创建目录: ",
            (Language::En, MsgKey::CreateDir) => "➕ Creating directory: ",
            (Language::Zh, MsgKey::AddDir) => "➕ 补充目录: ",
            (Language::En, MsgKey::AddDir) => "➕ Adding missing directory: ",
            (Language::Zh, MsgKey::EnvPrefixPrompt) => "🔤 是否为环境变量添加项目前缀？（避免多项目冲突）",
            (Language::En, MsgKey::EnvPrefixPrompt) => "🔤 Add prefix to env vars? (Avoid conflicts across projects)",
            (Language::Zh, MsgKey::NoPrefix) => "否（使用通用名称，如 OUTPUT_DIR）",
            (Language::En, MsgKey::NoPrefix) => "No (use generic names like OUTPUT_DIR)",
            (Language::Zh, MsgKey::WithPrefix) => "是（如 MYPROJ_OUTPUT_DIR）",
            (Language::En, MsgKey::WithPrefix) => "Yes (e.g., MYPROJ_OUTPUT_DIR)",
            (Language::Zh, MsgKey::PrefixPrompt) => "🔤 项目前缀（建议大写，如 MYTOOL）",
            (Language::En, MsgKey::PrefixPrompt) => "🔤 Project prefix (uppercase recommended, e.g., MYTOOL)",
            (Language::Zh, MsgKey::UpdateDotEnv) => "🔄 更新: ",
            (Language::En, MsgKey::UpdateDotEnv) => "🔄 Updating: ",
            (Language::Zh, MsgKey::SkipUsageMd) => "ℹ️  USAGE.md 已存在，跳过更新",
            (Language::En, MsgKey::SkipUsageMd) => "ℹ️  USAGE.md already exists, skipping update",
            (Language::Zh, MsgKey::GitInitPrompt) => "❓ 是否初始化 Git 仓库？",
            (Language::En, MsgKey::GitInitPrompt) => "❓ Initialize Git repository?",
            (Language::Zh, MsgKey::Yes) => "是",
            (Language::En, MsgKey::Yes) => "Yes",
            (Language::Zh, MsgKey::No) => "否",
            (Language::En, MsgKey::No) => "No",
            (Language::Zh, MsgKey::GitInitialized) => "📦 Git 仓库已初始化",
            (Language::En, MsgKey::GitInitialized) => "📦 Git repository initialized",
            (Language::Zh, MsgKey::GitConfigMissing) => "⚠️  Git 用户信息未配置，跳过初始提交\n💡 运行以下命令设置：\n  git config --global user.name \"Your Name\"\n  git config --global user.email \"you@example.com\"",
            (Language::En, MsgKey::GitConfigMissing) => "⚠️  Git user info not configured, skipping initial commit\n💡 Run these commands:\n  git config --global user.name \"Your Name\"\n  git config --global user.email \"you@example.com\"",
            (Language::Zh, MsgKey::InitialCommitPrompt) => "💾 是否创建初始提交？",
            (Language::En, MsgKey::InitialCommitPrompt) => "💾 Create initial commit?",
            (Language::Zh, MsgKey::GitAddFailed) => "⚠️  Git 添加失败: {}\n💡 建议检查：1. 工作区文件权限 2. Git 配置（user.name/user.email）",
            (Language::En, MsgKey::GitAddFailed) => "⚠️  Git add failed: {}\n💡 Check: 1. File permissions 2. Git config (user.name/user.email)",
            (Language::Zh, MsgKey::GitCommitFailed) => "⚠️  Git 提交失败: {}",
            (Language::En, MsgKey::GitCommitFailed) => "⚠️  Git commit failed: {}",
            (Language::Zh, MsgKey::CommitSuccess) => "💾 初始提交创建成功",
            (Language::En, MsgKey::CommitSuccess) => "💾 Initial commit created successfully",
            (Language::Zh, MsgKey::LicensePrompt) => "📜 选择开源许可证（可选）",
            (Language::En, MsgKey::LicensePrompt) => "📜 Choose an open-source license (optional)",
            (Language::Zh, MsgKey::SkipLicense) => "跳过（不生成 LICENSE）",
            (Language::En, MsgKey::SkipLicense) => "Skip (do not generate LICENSE)",
            (Language::Zh, MsgKey::Proprietary) => "Proprietary（专有）",
            (Language::En, MsgKey::Proprietary) => "Proprietary",
            (Language::Zh, MsgKey::IncrementalUpdateDone) => "✅ 项目结构已增量更新！",
            (Language::En, MsgKey::IncrementalUpdateDone) => "✅ Project structure incrementally updated!",
            (Language::Zh, MsgKey::InitDone) => "✅ 通用项目初始化完成！",
            (Language::En, MsgKey::InitDone) => "✅ Standardized project initialized!",
            (Language::Zh, MsgKey::GuidePath) => "📄 查看使用指南: {}/{}",
            (Language::En, MsgKey::GuidePath) => "📄 Usage guide: {}/{}",
            (Language::Zh, MsgKey::ReadmePath) => "📄 项目入口: {}/{}",
            (Language::En, MsgKey::ReadmePath) => "📄 Project entry: {}/{}",
            (Language::Zh, MsgKey::EnvPath) => "⚙️  环境变量路径: {}/{}",
            (Language::En, MsgKey::EnvPath) => "⚙️  Env file path: {}/{}",
            (Language::Zh, MsgKey::PrefixAdded) => "🔑 环境变量已添加前缀: ",
            (Language::En, MsgKey::PrefixAdded) => "🔑 Env vars prefixed with: ",
            (Language::Zh, MsgKey::DotenvTip) => "💡 提示：在脚本中通过 dotenv 加载路径，避免硬编码！",
            (Language::En, MsgKey::DotenvTip) => "💡 Tip: Load paths via dotenv in scripts to avoid hardcoding!",
        }
    }
}

} // verus!
