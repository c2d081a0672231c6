//! The statements that the programs put to the database. A question mark stands
//! for a value that is bound.
use vstd::prelude::*;

verus! {

// ---------------------------------------------------------------------------
// People

/// The session of a hashed token, and whose it is.
pub const SESSION: &'static str = r#"
    SELECT u.id,u.login,u.github_id,u.role,s.id AS session_id,s.expires_at
    FROM sessions s
    JOIN users u ON u.id=s.user_id
    WHERE s.token_hash=?"#;

/// Opens a session.
pub const ADD_SESSION: &'static str = r#"
    INSERT INTO sessions (id,token_hash,user_id,user_agent,expires_at,last_seen_at,created_at)
    VALUES (?,?,?,?,?,?,?)"#;

/// Someone who signs in.
pub const KEEP_USER: &'static str = r#"
    INSERT INTO users (id,github_id,login,name,email,avatar_url,access_token,
        access_token_expires_at,refresh_token,refresh_token_expires_at,role,last_login_at,
        created_at,updated_at)
    VALUES (?,?,?,?,?,?,?,?,?,?,?,?,?,?) ON CONFLICT(github_id) DO UPDATE SET
        login=excluded.login,name=excluded.name,email=excluded.email,
        avatar_url=excluded.avatar_url,access_token=excluded.access_token,
        access_token_expires_at=excluded.access_token_expires_at,
        refresh_token=COALESCE(excluded.refresh_token,users.refresh_token),
        refresh_token_expires_at=COALESCE(excluded.refresh_token_expires_at,
        users.refresh_token_expires_at),last_login_at=excluded.last_login_at,
        updated_at=excluded.updated_at"#;

/// Everyone who has signed in.
pub const USERS: &'static str = r#"
    SELECT id,login,name,avatar_url,role,last_login_at
    FROM users
    ORDER BY login"#;

/// Someone's sealed tokens.
pub const USER_TOKENS: &'static str = r#"
    SELECT access_token,access_token_expires_at,refresh_token,refresh_token_expires_at
    FROM users
    WHERE id=?"#;

/// Someone's renewed tokens.
pub const RENEW_TOKENS: &'static str = r#"
    UPDATE users SET access_token=?,access_token_expires_at=?,refresh_token=?,
        refresh_token_expires_at=COALESCE(?,refresh_token_expires_at),updated_at=?
    WHERE id=?"#;

/// Begins a sign-in.
pub const ADD_OAUTH_STATE: &'static str = r#"
    INSERT INTO oauth_states (id,state_hash,code_verifier,return_to,expires_at,created_at)
    VALUES (?,?,?,?,?,?)"#;

/// A sign-in that was begun.
pub const OAUTH_STATE: &'static str = r#"
    SELECT id,code_verifier,return_to,expires_at
    FROM oauth_states
    WHERE state_hash=?"#;

/// What someone should be told of.
pub const ALERT_COUNTS: &'static str = r#"
    SELECT (SELECT COUNT(*) FROM runners r JOIN runner_pools p ON p.id=r.pool_id JOIN
        user_installations ui ON ui.installation_id=p.installation_id WHERE ui.user_id=? AND
        r.deleted_at IS NULL AND r.status='failed') AS failed_runners,(SELECT COUNT(*) FROM
        webhook_deliveries wd WHERE wd.status IN ('failed','rejected') AND (wd.installation_id
        IS NULL OR EXISTS (SELECT 1 FROM user_installations ui WHERE
        ui.installation_id=wd.installation_id AND ui.user_id=?))) AS failed_webhooks,(SELECT
        COUNT(*) FROM workflow_jobs wj JOIN workflow_runs wr ON wr.id=wj.run_id JOIN
        repositories repo ON repo.id=wr.repository_id JOIN user_installations ui ON
        ui.installation_id=repo.installation_id WHERE ui.user_id=? AND wj.status='queued') AS
        queued_jobs,(SELECT COUNT(*) FROM github_runner_cleanup cleanup JOIN user_installations
        ui ON ui.installation_id=cleanup.installation_id WHERE ui.user_id=?) AS
        deferred_runner_cleanup"#;

/// Someone's permission on an installation.
pub const INSTALLATION_PERMISSION: &'static str = r#"
    SELECT permission
    FROM user_installations
    WHERE user_id=? AND installation_id=?"#;

/// Someone's permission on an installation, as it is found.
pub const KEEP_PERMISSION: &'static str = r#"
    INSERT INTO user_installations (user_id,installation_id,permission,created_at)
    VALUES (?,?,?,?) ON CONFLICT(user_id,installation_id) DO UPDATE SET
        permission=excluded.permission"#;

/// Someone's permissions, but for the listed and the suspended installations, are
/// forgotten.
pub const DROP_PERMISSIONS: &'static str = r#"
    DELETE
    FROM user_installations
    WHERE user_id=? AND installation_id NOT IN (SELECT value FROM json_each(?))
        AND installation_id NOT IN (SELECT id FROM installations
        WHERE suspended_at IS NOT NULL)"#;

// ---------------------------------------------------------------------------
// Installations and repositories

/// An installation that someone can reach.
pub const KEEP_INSTALLATION: &'static str = r#"
    INSERT INTO installations (id,account_id,account_login,account_type,account_avatar_url,
        target_type,repository_selection,permissions,events,suspended_at,last_synced_at,
        created_at,updated_at)
    VALUES (?,?,?,?,?,?,?,?,?,?,?,?,?) ON CONFLICT(id) DO UPDATE SET
        account_login=excluded.account_login,account_type=excluded.account_type,
        account_avatar_url=excluded.account_avatar_url,
        repository_selection=excluded.repository_selection,permissions=excluded.permissions,
        events=excluded.events,suspended_at=excluded.suspended_at,
        last_synced_at=excluded.last_synced_at,updated_at=excluded.updated_at"#;

/// An installation that an event tells of.
pub const KEEP_EVENT_INSTALLATION: &'static str = r#"
    INSERT INTO installations (id,account_id,account_login,account_type,account_avatar_url,
        target_type,repository_selection,permissions,events,suspended_at,last_synced_at,
        created_at,updated_at)
    VALUES (?,?,?,?,?,?,?,?,?,?,?,?,?) ON CONFLICT(id) DO UPDATE SET
        account_login=excluded.account_login,account_type=excluded.account_type,
        account_avatar_url=excluded.account_avatar_url,
        repository_selection=excluded.repository_selection,permissions=excluded.permissions,
        events=excluded.events,suspended_at=excluded.suspended_at,
        last_synced_at=excluded.last_synced_at,updated_at=excluded.updated_at"#;

/// An installation that is gone or suspended.
pub const SUSPEND_INSTALLATION: &'static str = r#"
    UPDATE installations SET suspended_at=COALESCE(suspended_at,?),updated_at=?
    WHERE id=?"#;

/// The account of an installation in use.
pub const INSTALLATION_ACCOUNT: &'static str = r#"
    SELECT account_login,account_type
    FROM installations
    WHERE id=? AND suspended_at IS NULL"#;

/// The installations that someone can reach or administer.
pub const INSTALLATIONS_OF_USER: &'static str = r#"
    SELECT i.id,i.account_login,i.account_type,i.repository_selection
    FROM user_installations ui
    JOIN installations i ON i.id=ui.installation_id
    WHERE ui.user_id=? AND i.suspended_at IS NULL AND (?=0 OR ui.permission='admin' OR
        ?='admin')
    ORDER BY i.account_login"#;

/// The installations that someone can reach, with what is set at GitHub.
pub const INSTALLATION_SETTINGS: &'static str = r#"
    SELECT installation.id,installation.account_login,installation.account_type,
        installation.account_avatar_url,installation.repository_selection,
        installation.suspended_at IS NOT NULL AS suspended,installation.last_synced_at,
        access.permission,(SELECT COUNT(*) FROM runner_pool_installations mapped WHERE
        mapped.installation_id=installation.id) AS pool_count
    FROM user_installations access
    JOIN installations installation ON installation.id=access.installation_id
    WHERE access.user_id=?
    ORDER BY installation.account_login"#;

/// How many installations in use someone can reach.
pub const INSTALLATION_COUNT: &'static str = r#"
    SELECT COUNT(*)
    FROM user_installations ui
    JOIN installations i ON i.id=ui.installation_id
    WHERE ui.user_id=? AND i.suspended_at IS NULL"#;

/// A repository that someone can reach.
pub const KEEP_REPOSITORY: &'static str = r#"
    INSERT INTO repositories (id,installation_id,owner,name,full_name,private,archived,
        default_branch,html_url,permission,github_updated_at,last_synced_at,created_at,
        updated_at)
    VALUES (?,?,?,?,?,?,?,?,?,?,?,?,?,?) ON CONFLICT(id) DO UPDATE SET
        installation_id=excluded.installation_id,owner=excluded.owner,name=excluded.name,
        full_name=excluded.full_name,private=excluded.private,archived=excluded.archived,
        default_branch=excluded.default_branch,html_url=excluded.html_url,
        permission=excluded.permission,github_updated_at=excluded.github_updated_at,
        last_synced_at=excluded.last_synced_at,updated_at=excluded.updated_at"#;

/// A repository that an event tells of.
pub const KEEP_EVENT_REPOSITORY: &'static str = r#"
    INSERT INTO repositories (id,installation_id,owner,name,full_name,private,archived,
        default_branch,html_url,last_synced_at,created_at,updated_at)
    VALUES (?,?,?,?,?,?,0,?,?,?,?,?) ON CONFLICT(id) DO UPDATE SET
        installation_id=excluded.installation_id,owner=excluded.owner,name=excluded.name,
        full_name=excluded.full_name,private=excluded.private,archived=0,
        default_branch=excluded.default_branch,html_url=excluded.html_url,
        last_synced_at=excluded.last_synced_at,updated_at=excluded.updated_at"#;

/// A repository that is out of reach.
pub const ARCHIVE_REPOSITORY: &'static str = r#"
    UPDATE repositories SET archived=1,updated_at=?
    WHERE id=?"#;

/// Pools leave an archived repository for their next one.
pub const LEAVE_ARCHIVED_REPOSITORY: &'static str = r#"
    UPDATE runner_pools SET repository_id=(SELECT repository_id FROM runner_pool_repositories
        membership WHERE membership.pool_id=runner_pools.id ORDER BY created_at,repository_id
        LIMIT 1),installation_id=COALESCE((SELECT repo.installation_id FROM
        runner_pool_repositories membership JOIN repositories repo ON
        repo.id=membership.repository_id WHERE membership.pool_id=runner_pools.id ORDER BY
        membership.created_at,repo.id LIMIT 1),installation_id),paused=CASE WHEN NOT EXISTS
        (SELECT 1 FROM runner_pool_repositories membership WHERE
        membership.pool_id=runner_pools.id) THEN 1 ELSE paused END,state=CASE WHEN NOT EXISTS
        (SELECT 1 FROM runner_pool_repositories membership WHERE
        membership.pool_id=runner_pools.id) THEN 'draining' ELSE 'updating' END,
        configuration_version=configuration_version+1,updated_at=?
    WHERE scope='repository' AND (repository_id=? OR EXISTS (SELECT 1 FROM runners runner WHERE
        runner.pool_id=runner_pools.id AND runner.target_repository_id=? AND runner.deleted_at
        IS NULL))"#;

/// How many repositories someone can reach.
pub const REPOSITORY_COUNT: &'static str = r#"
    SELECT COUNT(*)
    FROM repositories r
    JOIN user_installations ui ON ui.installation_id=r.installation_id
    WHERE ui.user_id=?"#;

/// How the repositories that someone can reach are used.
pub const REPOSITORY_FIGURES: &'static str = r#"
    SELECT repo.id,repo.last_synced_at,(SELECT COUNT(*) FROM runner_pool_repositories membership
        WHERE membership.repository_id=repo.id) AS pool_count,COUNT(DISTINCT wr.id) AS
        run_count,MAX(wr.github_updated_at) AS last_run_at
    FROM repositories repo
    JOIN user_installations ui ON ui.installation_id=repo.installation_id
    LEFT JOIN workflow_runs wr ON wr.repository_id=repo.id
    WHERE ui.user_id=?
    GROUP BY repo.id"#;

/// The repositories whose runs are read.
pub const REPOSITORIES_TO_SYNC: &'static str = r#"
    SELECT repo.id,repo.installation_id,repo.owner,repo.name
    FROM repositories repo
    JOIN installations i ON i.id=repo.installation_id
    WHERE repo.archived=0 AND i.suspended_at IS NULL AND (EXISTS (SELECT 1 FROM
        runner_pool_repositories membership WHERE membership.repository_id=repo.id) OR EXISTS
        (SELECT 1 FROM runner_pools p WHERE p.repository_id=repo.id) OR EXISTS (SELECT 1 FROM
        workflow_runs wr WHERE wr.repository_id=repo.id))
    ORDER BY repo.id"#;

/// What has a text in its name, of all that someone can see.
pub const SEARCH: &'static str = r#"
    SELECT kind,id,title,subtitle,href
    FROM (SELECT 'repository' AS kind,CAST(repo.id AS TEXT) AS id,repo.full_name AS title,
        i.account_login AS subtitle,'/repositories' AS href,repo.full_name AS sort_value FROM
        repositories repo JOIN installations i ON i.id=repo.installation_id JOIN
        user_installations ui ON ui.installation_id=repo.installation_id WHERE ui.user_id=? AND
        repo.full_name LIKE ? ESCAPE '\' UNION ALL SELECT 'runner pool',p.id,p.name,
        COALESCE(repo.full_name,i.account_login),'/runner-pools/' || p.id,p.name FROM
        runner_pools p JOIN installations i ON i.id=p.installation_id LEFT JOIN repositories
        repo ON repo.id=p.repository_id WHERE p.name LIKE ? ESCAPE '\' AND EXISTS (SELECT 1 FROM
        runner_pool_installations mapped WHERE mapped.pool_id=p.id) AND NOT EXISTS (SELECT 1
        FROM runner_pool_installations mapped WHERE mapped.pool_id=p.id AND NOT EXISTS (SELECT 1
        FROM user_installations access WHERE access.user_id=? AND
        access.installation_id=mapped.installation_id)) UNION ALL SELECT 'runner',r.id,r.name,
        p.name,'/runners',r.name FROM runners r JOIN runner_pools p ON p.id=r.pool_id WHERE
        r.deleted_at IS NULL AND r.name LIKE ? ESCAPE '\' AND EXISTS (SELECT 1 FROM
        runner_pool_installations mapped WHERE mapped.pool_id=p.id) AND NOT EXISTS (SELECT 1
        FROM runner_pool_installations mapped WHERE mapped.pool_id=p.id AND NOT EXISTS (SELECT 1
        FROM user_installations access WHERE access.user_id=? AND
        access.installation_id=mapped.installation_id)) UNION ALL SELECT 'workflow run',
        CAST(wr.id AS TEXT),wr.workflow_name,repo.full_name,'/workflow-runs/' || wr.id,
        wr.workflow_name FROM workflow_runs wr JOIN repositories repo ON
        repo.id=wr.repository_id JOIN user_installations ui ON
        ui.installation_id=repo.installation_id WHERE ui.user_id=? AND (wr.workflow_name LIKE ?
        ESCAPE '\' OR repo.full_name LIKE ? ESCAPE '\'))
    ORDER BY sort_value LIMIT 12"#;

// ---------------------------------------------------------------------------
// Pools

/// A pool that someone can see, with what they may do with it.
pub const POOL: &'static str = r#"
    SELECT CASE WHEN NOT EXISTS (SELECT 1 FROM runner_pool_installations mapped WHERE
        mapped.pool_id=p.id AND NOT EXISTS (SELECT 1 FROM user_installations manage WHERE
        manage.user_id=? AND manage.installation_id=mapped.installation_id AND
        manage.permission='admin')) THEN 'admin' ELSE 'read' END AS installation_permission,
        p.installation_id,i.account_login,p.repository_id,repo.owner AS repository_owner,
        repo.name AS repository_name,p.name,p.scope,p.mode,p.provider,p.providers,p.labels,
        p.image,p.docker_image,p.tart_image,p.macos_runtime,p.desired_count,p.min_count,
        p.max_count,CAST(p.cpu_limit AS REAL) AS cpu_limit,p.memory_limit_mb,p.runner_group_id,
        p.ephemeral,p.paused,p.state,p.autoscaling_enabled,p.queue_scale_factor,
        p.idle_timeout_minutes,p.configuration_version,p.provision_failure_count,
        p.provision_retry_at,p.provision_circuit_open
    FROM runner_pools p
    JOIN installations i ON i.id=p.installation_id
    LEFT JOIN repositories repo ON repo.id=p.repository_id
    WHERE p.id=? AND EXISTS (SELECT 1 FROM runner_pool_installations mapped WHERE
        mapped.pool_id=p.id) AND NOT EXISTS (SELECT 1 FROM runner_pool_installations mapped
        WHERE mapped.pool_id=p.id AND NOT EXISTS (SELECT 1 FROM user_installations access WHERE
        access.user_id=? AND access.installation_id=mapped.installation_id))"#;

/// A pool, for the system itself.
pub const POOL_OF_SYSTEM: &'static str = r#"
    SELECT 'admin' AS installation_permission,p.installation_id,i.account_login,p.repository_id,
        repo.owner AS repository_owner,repo.name AS repository_name,p.name,p.scope,p.mode,
        p.provider,p.providers,p.labels,p.image,p.docker_image,p.tart_image,p.macos_runtime,
        p.desired_count,p.min_count,p.max_count,CAST(p.cpu_limit AS REAL) AS cpu_limit,
        p.memory_limit_mb,p.runner_group_id,p.ephemeral,p.paused,p.state,p.autoscaling_enabled,
        p.queue_scale_factor,p.idle_timeout_minutes,p.configuration_version,
        p.provision_failure_count,p.provision_retry_at,p.provision_circuit_open
    FROM runner_pools p
    JOIN installations i ON i.id=p.installation_id
    LEFT JOIN repositories repo ON repo.id=p.repository_id
    WHERE p.id=?"#;

/// How many pools someone can see.
pub const POOL_COUNT: &'static str = r#"
    SELECT COUNT(*)
    FROM runner_pools p
    WHERE EXISTS (SELECT 1 FROM runner_pool_installations mapped WHERE mapped.pool_id=p.id) AND
        NOT EXISTS (SELECT 1 FROM runner_pool_installations mapped WHERE mapped.pool_id=p.id AND
        NOT EXISTS (SELECT 1 FROM user_installations access WHERE access.user_id=? AND
        access.installation_id=mapped.installation_id))"#;

/// The pools that someone can see, by page.
pub const POOLS: &'static str = r#"
    SELECT p.id,p.name,p.scope,p.mode,p.provider,p.providers,p.labels,p.image,p.docker_image,
        p.tart_image,p.macos_runtime,p.desired_count,p.min_count,p.max_count,CAST(p.cpu_limit AS
        REAL) AS cpu_limit,p.memory_limit_mb,p.paused,p.state,p.provision_failure_count,
        p.provision_retry_at,p.provision_circuit_open,i.account_login,CASE WHEN NOT EXISTS
        (SELECT 1 FROM runner_pool_installations mapped WHERE mapped.pool_id=p.id AND NOT EXISTS
        (SELECT 1 FROM user_installations manage WHERE manage.user_id=? AND
        manage.installation_id=mapped.installation_id AND manage.permission='admin')) THEN
        'admin' ELSE 'read' END AS installation_permission,repo.full_name AS repository,(SELECT
        COUNT(*) FROM runner_pool_repositories membership WHERE membership.pool_id=p.id) AS
        repository_count,(SELECT COUNT(*) FROM runner_pool_installations mapped WHERE
        mapped.pool_id=p.id) AS account_count,COUNT(CASE WHEN r.deleted_at IS NULL THEN 1 END)
        AS total_runners,COUNT(CASE WHEN r.deleted_at IS NULL AND r.status IN ('online','idle',
        'busy') THEN 1 END) AS online_runners,COUNT(CASE WHEN r.deleted_at IS NULL AND r.busy=1
        THEN 1 END) AS busy_runners,COUNT(CASE WHEN r.deleted_at IS NULL AND r.status='failed'
        THEN 1 END) AS failed_runners,COUNT(CASE WHEN r.deleted_at IS NULL AND
        r.configuration_version < p.configuration_version THEN 1 END) AS outdated_runners,
        p.created_at
    FROM runner_pools p
    JOIN installations i ON i.id=p.installation_id
    LEFT JOIN repositories repo ON repo.id=p.repository_id
    LEFT JOIN runners r ON r.pool_id=p.id
    WHERE EXISTS (SELECT 1 FROM runner_pool_installations mapped WHERE mapped.pool_id=p.id) AND
        NOT EXISTS (SELECT 1 FROM runner_pool_installations mapped WHERE mapped.pool_id=p.id AND
        NOT EXISTS (SELECT 1 FROM user_installations access WHERE access.user_id=? AND
        access.installation_id=mapped.installation_id))
    GROUP BY p.id
    ORDER BY p.created_at DESC LIMIT ? OFFSET ?"#;

/// The repositories of a pool, as they are shown.
pub const REPOSITORIES_OF_POOL: &'static str = r#"
    SELECT repo.id,repo.installation_id,repo.full_name,repo.private,installation.account_login,
        installation.account_type
    FROM runner_pool_repositories membership
    JOIN repositories repo ON repo.id=membership.repository_id
    JOIN installations installation ON installation.id=repo.installation_id
    WHERE membership.pool_id=?
    ORDER BY membership.created_at,repo.id"#;

/// The numbers of the repositories of a pool.
pub const REPOSITORY_IDS_OF_POOL: &'static str = r#"
    SELECT repository_id
    FROM runner_pool_repositories
    WHERE pool_id=?
    ORDER BY created_at,repository_id"#;

/// The repositories of a pool that are in use.
pub const POOL_REPOSITORIES: &'static str = r#"
    SELECT repo.id,repo.installation_id,repo.owner,repo.name
    FROM runner_pool_repositories membership
    JOIN repositories repo ON repo.id=membership.repository_id
    WHERE membership.pool_id=? AND repo.archived=0
    ORDER BY membership.created_at,repo.id"#;

/// Which repositories belong to which pools.
pub const ALL_POOL_REPOSITORIES: &'static str = r#"
    SELECT pool_id,repository_id
    FROM runner_pool_repositories"#;

/// A repository joins a pool.
pub const ADD_POOL_REPOSITORY: &'static str = r#"
    INSERT INTO runner_pool_repositories (pool_id,repository_id,created_at)
    VALUES (?,?,?)"#;

/// Every repository leaves a pool.
pub const DROP_POOL_REPOSITORIES: &'static str = r#"
    DELETE
    FROM runner_pool_repositories
    WHERE pool_id=?"#;

/// A repository leaves every pool.
pub const DROP_REPOSITORY: &'static str = r#"
    DELETE
    FROM runner_pool_repositories
    WHERE repository_id=?"#;

/// The connections of a pool, as they are shown.
pub const CONNECTIONS_OF_POOL: &'static str = r#"
    SELECT connection.id,connection.name,connection.workspace,connection.workspace_uuid
    FROM runner_pool_bitbucket_connections membership
    JOIN bitbucket_connections connection ON connection.id=membership.connection_id
    WHERE membership.pool_id=?
    ORDER BY membership.created_at,connection.id"#;

/// The numbers of the connections of a pool.
pub const CONNECTION_IDS_OF_POOL: &'static str = r#"
    SELECT connection_id
    FROM runner_pool_bitbucket_connections
    WHERE pool_id=?
    ORDER BY created_at,connection_id"#;

/// A connection joins a pool.
pub const ADD_POOL_CONNECTION: &'static str = r#"
    INSERT INTO runner_pool_bitbucket_connections (pool_id,connection_id,created_at)
    VALUES (?,?,?)"#;

/// Every connection leaves a pool.
pub const DROP_POOL_CONNECTIONS: &'static str = r#"
    DELETE
    FROM runner_pool_bitbucket_connections
    WHERE pool_id=?"#;

/// A connection of a pool that no runner serves.
pub const WAITING_CONNECTION: &'static str = r#"
    SELECT connection.id,connection.workspace,connection.workspace_uuid,
        connection.access_token_key
    FROM runner_pool_bitbucket_connections membership
    JOIN bitbucket_connections connection ON connection.id=membership.connection_id
    WHERE membership.pool_id=? AND NOT EXISTS (SELECT 1 FROM runners runner WHERE
        runner.pool_id=membership.pool_id AND runner.bitbucket_connection_id=connection.id AND
        runner.deleted_at IS NULL AND runner.status IN ('starting','online','idle','busy',
        'paused','stopped'))
    ORDER BY membership.created_at,connection.id LIMIT 1"#;

/// A new pool.
pub const ADD_POOL: &'static str = r#"
    INSERT INTO runner_pools (installation_id,repository_id,name,mode,provider,providers,labels,
        image,docker_image,tart_image,macos_runtime,desired_count,min_count,max_count,cpu_limit,
        memory_limit_mb,ephemeral,runner_group_id,autoscaling_enabled,queue_scale_factor,
        idle_timeout_minutes,id,scope,created_by,created_at,updated_at,paused,state)
    VALUES (?,?,?,?,?,?,?,?,?,?,?,?,?,?,?,?,?,?,?,?,?,?,?,?,?,?,0,'active')"#;

/// A changed pool, with its failures forgotten.
pub const CHANGE_POOL: &'static str = r#"
    UPDATE runner_pools SET installation_id=?,repository_id=?,name=?,mode=?,provider=?,
        providers=?,labels=?,image=?,docker_image=?,tart_image=?,macos_runtime=?,
        desired_count=?,min_count=?,max_count=?,cpu_limit=?,memory_limit_mb=?,ephemeral=?,
        runner_group_id=?,autoscaling_enabled=?,queue_scale_factor=?,idle_timeout_minutes=?,
        configuration_version=?,state=?,updated_at=?,provision_failure_count=0,
        provision_retry_at=NULL,provision_circuit_open=0
    WHERE id=?"#;

/// A pool whose failures are forgotten.
pub const RETRY_POOL: &'static str = r#"
    UPDATE runner_pools SET provision_failure_count=0,provision_retry_at=NULL,
        provision_circuit_open=0,state='active',updated_at=?
    WHERE id=?"#;

/// The failures of a pool are forgotten.
pub const CLOSE_CIRCUIT: &'static str = r#"
    UPDATE runner_pools SET provision_failure_count=0,provision_retry_at=NULL,
        provision_circuit_open=0
    WHERE id=?"#;

/// A pool waits for capacity.
pub const DEFER_POOL: &'static str = r#"
    UPDATE runner_pools SET state='waiting',provision_retry_at=?,updated_at=?
    WHERE id=?"#;

/// A pool could not start a runner.
pub const FAIL_POOL: &'static str = r#"
    UPDATE runner_pools SET provision_failure_count=?,provision_retry_at=?,
        provision_circuit_open=?,state=?,updated_at=?
    WHERE id=?"#;

/// A pool is paused or resumed.
pub const PAUSE_POOL: &'static str = r#"
    UPDATE runner_pools SET paused=?,state=?,updated_at=?
    WHERE id=?"#;

/// A pool is about to be deleted.
pub const END_POOL: &'static str = r#"
    UPDATE runner_pools SET paused=1,state='deleting',updated_at=?
    WHERE id=?"#;

/// How many runners a pool asks for.
pub const RESIZE_POOL: &'static str = r#"
    UPDATE runner_pools SET desired_count=?,updated_at=?
    WHERE id=?"#;

/// How many runners a pool is scaled to.
pub const SCALE_POOL: &'static str = r#"
    UPDATE runner_pools SET desired_count=?,state='scaling',updated_at=?
    WHERE id=?"#;

/// The state of a pool.
pub const SET_POOL_STATE: &'static str = "UPDATE runner_pools SET state=?,updated_at=? WHERE id=?";

/// The pools of an installation that is out of reach are drained.
pub const DRAIN_MAPPED_POOLS: &'static str = r#"
    UPDATE runner_pools SET paused=1,state='draining',updated_at=?
    WHERE EXISTS (SELECT 1 FROM runner_pool_installations mapped WHERE
        mapped.pool_id=runner_pools.id AND mapped.installation_id=?)"#;

/// The pools of an installation are drained.
pub const DRAIN_INSTALLATION_POOLS: &'static str = r#"
    UPDATE runner_pools SET paused=1,state='draining',updated_at=?
    WHERE installation_id=?"#;

/// The pools of a repository are drained.
pub const DRAIN_REPOSITORY_POOLS: &'static str = r#"
    UPDATE runner_pools SET paused=1,state='draining',updated_at=?
    WHERE repository_id=?"#;

/// The pools that are reconciled.
pub const POOLS_TO_RECONCILE: &'static str = r#"
    SELECT p.id,p.installation_id,i.account_login,p.scope,p.name,p.state,p.mode,p.provider,
        p.providers,p.labels,p.docker_image,p.tart_image,p.desired_count,p.min_count,
        p.max_count,CAST(p.cpu_limit AS REAL) AS cpu_limit,p.memory_limit_mb,p.runner_group_id,
        p.ephemeral,p.paused,p.autoscaling_enabled,p.queue_scale_factor,p.idle_timeout_minutes,
        p.configuration_version,p.provision_failure_count,p.provision_retry_at,
        p.provision_circuit_open
    FROM runner_pools p
    JOIN installations i ON i.id=p.installation_id
    WHERE p.state != 'deleting'
    ORDER BY p.created_at"#;

/// The pools that queued jobs are assigned to.
pub const POOL_CANDIDATES: &'static str = r#"
    SELECT id,scope,installation_id,repository_id,created_at,autoscaling_enabled,paused,
        providers,labels
    FROM runner_pools"#;

/// The pools that may be scaled for a queued job.
pub const SCALE_CANDIDATES: &'static str = r#"
    SELECT p.id,p.labels,p.providers,p.desired_count,p.max_count,p.queue_scale_factor,COUNT(CASE
        WHEN r.deleted_at IS NULL AND r.busy=1 AND r.status IN ('online','idle','busy') THEN 1
        END) AS busy_count
    FROM runner_pools p
    JOIN repositories event_repo ON event_repo.id=?
    LEFT JOIN runners r ON r.pool_id=p.id
    WHERE p.autoscaling_enabled=1 AND p.paused=0 AND (p.repository_id=event_repo.id OR
        (p.scope='organization' AND p.installation_id=event_repo.installation_id))
    GROUP BY p.id
    ORDER BY CASE WHEN p.repository_id=event_repo.id THEN 0 ELSE 1 END,p.created_at,p.id"#;

/// The pools for a repository that someone can see, and how far they are used.
pub const POOLS_FOR_JOB: &'static str = r#"
    SELECT p.id,p.name,p.labels,p.providers,p.paused,p.provision_circuit_open,p.max_count,
        COUNT(CASE WHEN r.deleted_at IS NULL AND r.status IN ('starting','online','idle','busy',
        'paused','stopped') THEN 1 END) AS active_runners,COUNT(CASE WHEN r.deleted_at IS NULL
        AND r.busy=1 THEN 1 END) AS busy_runners
    FROM runner_pools p
    LEFT JOIN runners r ON r.pool_id=p.id
    WHERE (EXISTS (SELECT 1 FROM runner_pool_repositories membership WHERE
        membership.pool_id=p.id AND membership.repository_id=?) OR p.repository_id=? OR
        (p.scope='organization' AND p.installation_id=?)) AND EXISTS (SELECT 1 FROM
        runner_pool_installations mapped WHERE mapped.pool_id=p.id) AND NOT EXISTS (SELECT 1
        FROM runner_pool_installations mapped WHERE mapped.pool_id=p.id AND NOT EXISTS (SELECT 1
        FROM user_installations access WHERE access.user_id=? AND
        access.installation_id=mapped.installation_id))
    GROUP BY p.id
    ORDER BY p.name"#;

/// What happened in a pool, by page.
pub const EVENTS_OF_POOL: &'static str = r#"
    SELECT id,runner_id,level,event,message,metadata,created_at
    FROM runner_events
    WHERE pool_id=?
    ORDER BY created_at DESC LIMIT ? OFFSET ?"#;

/// The capacity of a pool in one minute.
pub const KEEP_SAMPLE: &'static str = r#"
    INSERT INTO capacity_samples (id,installation_id,pool_id,available,busy,queued,recorded_at)
    VALUES (?,?,?,?,?,?,?) ON CONFLICT(pool_id,recorded_at) DO UPDATE SET
        available=excluded.available,busy=excluded.busy,queued=excluded.queued"#;

// ---------------------------------------------------------------------------
// Runners

/// A runner that someone can see.
pub const RUNNER: &'static str = r#"
    SELECT r.id AS runner_id,r.name AS runner_name,r.container_id,r.github_runner_id,
        r.ci_platform,r.bitbucket_connection_id,r.bitbucket_runner_uuid,r.provider,r.status AS
        runner_status,r.busy,r.ephemeral,r.configuration_version,r.last_job_id,p.id AS pool_id,
        p.name AS pool_name,COALESCE(repo.installation_id,p.installation_id) AS installation_id,
        COALESCE(target_installation.account_login,primary_installation.account_login) AS
        account_login,r.target_repository_id,repo.owner AS repository_owner,repo.name AS
        repository_name
    FROM runners r
    JOIN runner_pools p ON p.id=r.pool_id
    JOIN installations primary_installation ON primary_installation.id=p.installation_id
    LEFT JOIN repositories repo ON repo.id=r.target_repository_id
    LEFT JOIN installations target_installation ON target_installation.id=repo.installation_id
    WHERE r.deleted_at IS NULL AND r.id=? AND EXISTS (SELECT 1 FROM runner_pool_installations
        mapped WHERE mapped.pool_id=p.id) AND NOT EXISTS (SELECT 1 FROM
        runner_pool_installations mapped WHERE mapped.pool_id=p.id AND NOT EXISTS (SELECT 1 FROM
        user_installations access WHERE access.user_id=? AND
        access.installation_id=mapped.installation_id))"#;

/// The runners of a pool.
pub const RUNNERS_OF_POOL: &'static str = r#"
    SELECT r.id AS runner_id,r.name AS runner_name,r.container_id,r.github_runner_id,
        r.ci_platform,r.bitbucket_connection_id,r.bitbucket_runner_uuid,r.provider,r.status AS
        runner_status,r.busy,r.ephemeral,r.configuration_version,r.last_job_id,p.id AS pool_id,
        p.name AS pool_name,COALESCE(repo.installation_id,p.installation_id) AS installation_id,
        COALESCE(target_installation.account_login,primary_installation.account_login) AS
        account_login,r.target_repository_id,repo.owner AS repository_owner,repo.name AS
        repository_name
    FROM runners r
    JOIN runner_pools p ON p.id=r.pool_id
    JOIN installations primary_installation ON primary_installation.id=p.installation_id
    LEFT JOIN repositories repo ON repo.id=r.target_repository_id
    LEFT JOIN installations target_installation ON target_installation.id=repo.installation_id
    WHERE r.deleted_at IS NULL AND p.id=?
    ORDER BY r.created_at DESC"#;

/// The runners of a pool, as they are reconciled.
pub const RUNNERS_TO_RECONCILE: &'static str = r#"
    SELECT r.id,COALESCE(repo.installation_id,p.installation_id) AS installation_id,r.name,
        r.container_id,r.github_runner_id,r.target_repository_id,repo.owner AS repository_owner,
        repo.name AS repository_name,r.provider,r.status,r.busy,r.last_job_id,
        r.configuration_version,r.updated_at
    FROM runners r
    JOIN runner_pools p ON p.id=r.pool_id
    LEFT JOIN repositories repo ON repo.id=r.target_repository_id
    WHERE r.deleted_at IS NULL AND p.id=?
    ORDER BY r.created_at DESC"#;

/// How many runners someone can see.
pub const RUNNER_COUNT: &'static str = r#"
    SELECT COUNT(*)
    FROM runners r
    JOIN runner_pools p ON p.id=r.pool_id
    WHERE r.deleted_at IS NULL AND EXISTS (SELECT 1 FROM runner_pool_installations mapped WHERE
        mapped.pool_id=p.id) AND NOT EXISTS (SELECT 1 FROM runner_pool_installations mapped
        WHERE mapped.pool_id=p.id AND NOT EXISTS (SELECT 1 FROM user_installations access WHERE
        access.user_id=? AND access.installation_id=mapped.installation_id))"#;

/// The runners that someone can see, by page.
pub const RUNNERS: &'static str = r#"
    SELECT r.id,r.name,r.provider,r.ci_platform AS platform,r.status,r.busy,r.ephemeral,r.os,
        r.architecture,r.container_id,r.github_runner_id,r.bitbucket_runner_uuid,
        r.failure_reason,r.registered_at,r.last_heartbeat_at,r.created_at,p.id AS pool_id,p.name
        AS pool_name,p.paused AS pool_paused,COALESCE(target_installation.account_login,
        primary_installation.account_login) AS account_login,CASE WHEN NOT EXISTS (SELECT 1 FROM
        runner_pool_installations mapped WHERE mapped.pool_id=p.id AND NOT EXISTS (SELECT 1 FROM
        user_installations manage WHERE manage.user_id=? AND
        manage.installation_id=mapped.installation_id AND manage.permission='admin')) THEN
        'admin' ELSE 'read' END AS installation_permission,repo.full_name AS repository,wj.name
        AS current_job_name,wj.run_id AS current_run_id
    FROM runners r
    JOIN runner_pools p ON p.id=r.pool_id
    JOIN installations primary_installation ON primary_installation.id=p.installation_id
    LEFT JOIN repositories repo ON repo.id=r.target_repository_id
    LEFT JOIN installations target_installation ON target_installation.id=repo.installation_id
    LEFT JOIN workflow_jobs wj ON wj.id=r.current_job_id
    WHERE r.deleted_at IS NULL AND EXISTS (SELECT 1 FROM runner_pool_installations mapped WHERE
        mapped.pool_id=p.id) AND NOT EXISTS (SELECT 1 FROM runner_pool_installations mapped
        WHERE mapped.pool_id=p.id AND NOT EXISTS (SELECT 1 FROM user_installations access WHERE
        access.user_id=? AND access.installation_id=mapped.installation_id))
    ORDER BY r.created_at DESC LIMIT ? OFFSET ?"#;

/// Where the runners of a pool stand.
pub const PLACED_RUNNERS: &'static str = r#"
    SELECT target_repository_id,status,busy
    FROM runners
    WHERE pool_id=? AND deleted_at IS NULL"#;

/// How many runners of a pool each provider has.
pub const PROVIDER_RUNNERS: &'static str = r#"
    SELECT provider,COUNT(*) AS active,COUNT(CASE WHEN busy=1 THEN 1 END) AS busy
    FROM runners
    WHERE pool_id=? AND deleted_at IS NULL AND status IN ('starting','online','idle','busy',
        'paused','stopped') AND (? IS NULL OR target_repository_id=?)
    GROUP BY provider"#;

/// A repository of a pool that is in use.
pub const PREFERRED_REPOSITORY: &'static str = r#"
    SELECT repo.id,repo.installation_id,repo.owner,repo.name
    FROM runner_pool_repositories membership
    JOIN repositories repo ON repo.id=membership.repository_id
    WHERE membership.pool_id=? AND membership.repository_id=? AND repo.archived=0"#;

/// A runner that is being started.
pub const ADD_RUNNER: &'static str = r#"
    INSERT INTO runners (id,pool_id,target_repository_id,name,provider,ci_platform,
        bitbucket_connection_id,os,architecture,status,ephemeral,configuration_version,runtime,
        created_at,updated_at)
    VALUES (?,?,?,?,?,?,?,?,?,'starting',?,?,?,?,?)"#;

/// A runner that was started.
pub const FINISH_RUNNER: &'static str = r#"
    UPDATE runners SET github_runner_id=?,bitbucket_runner_uuid=?,container_id=?,
        container_name=?,status=?,registered_at=?,last_heartbeat_at=?,updated_at=?
    WHERE id=?"#;

/// The number of a runner at GitHub.
pub const KEEP_GITHUB_RUNNER: &'static str = r#"
    UPDATE runners SET github_runner_id=?,updated_at=?
    WHERE id=?"#;

/// A runner that could not be started.
pub const FAIL_RUNNER: &'static str = r#"
    UPDATE runners SET status='failed',failure_reason=?,updated_at=?
    WHERE id=?"#;

/// A runner that was removed.
pub const DELETE_RUNNER: &'static str = r#"
    UPDATE runners SET status='deleted',busy=0,deleted_at=?,updated_at=?
    WHERE id=?"#;

/// The status of a runner.
pub const SET_RUNNER_STATUS: &'static str = "UPDATE runners SET status=?,updated_at=? WHERE id=?";

/// The status that a runner was found in.
pub const OBSERVE_RUNNER: &'static str = r#"
    UPDATE runners SET status=?,last_heartbeat_at=?,updated_at=CASE WHEN status<>? THEN ? ELSE
        updated_at END
    WHERE id=?"#;

/// A runner takes a job.
pub const OCCUPY_RUNNER: &'static str = r#"
    UPDATE runners SET busy=1,current_job_id=?,last_job_id=?,github_runner_id=COALESCE(?,
        github_runner_id),status='busy',updated_at=?
    WHERE id=?"#;

/// A runner is done with a job.
pub const FREE_RUNNER: &'static str = r#"
    UPDATE runners SET busy=0,current_job_id=CASE WHEN current_job_id=? THEN NULL ELSE
        current_job_id END,last_job_id=?,github_runner_id=COALESCE(?,github_runner_id),
        updated_at=?
    WHERE id=?"#;

/// The runner that a job names.
pub const RUNNER_OF_JOB: &'static str = r#"
    SELECT id,pool_id
    FROM runners
    WHERE deleted_at IS NULL AND (github_runner_id=? OR name=?)
    ORDER BY created_at DESC LIMIT 1"#;

/// A registration that GitHub still holds.
pub const DEFER_CLEANUP: &'static str = r#"
    INSERT INTO github_runner_cleanup (id,installation_id,target_owner,target_repository,
        github_runner_id,runner_name,attempts,last_error,next_attempt_at,created_at,updated_at)
    VALUES (?,?,?,?,?,?,0,?,?,?,?) ON CONFLICT(id) DO UPDATE SET
        installation_id=excluded.installation_id,target_owner=excluded.target_owner,
        target_repository=excluded.target_repository,
        github_runner_id=COALESCE(excluded.github_runner_id,
        github_runner_cleanup.github_runner_id),runner_name=excluded.runner_name,
        last_error=excluded.last_error,next_attempt_at=excluded.next_attempt_at,
        updated_at=excluded.updated_at"#;

/// The registrations that are to be taken back now.
pub const PENDING_CLEANUP: &'static str = r#"
    SELECT id,installation_id,target_owner,target_repository,github_runner_id,runner_name,
        attempts
    FROM github_runner_cleanup
    WHERE next_attempt_at<=?
    ORDER BY next_attempt_at LIMIT 25"#;

/// A registration that could not be taken back.
pub const RETRY_CLEANUP: &'static str = r#"
    UPDATE github_runner_cleanup SET attempts=?,last_error=?,next_attempt_at=?,updated_at=?
    WHERE id=?"#;

/// What happened to a runner or in a pool.
pub const ADD_EVENT: &'static str = r#"
    INSERT INTO runner_events (id,runner_id,pool_id,level,event,message,metadata,created_at)
    VALUES (?,?,?,?,?,?,?,?)"#;

// ---------------------------------------------------------------------------
// Workflows

/// How many runs someone can see.
pub const RUN_COUNT: &'static str = r#"
    SELECT COUNT(*)
    FROM workflow_runs wr
    JOIN repositories repo ON repo.id=wr.repository_id
    JOIN user_installations ui ON ui.installation_id=repo.installation_id AND ui.user_id=?"#;

/// The runs that someone can see, by page.
pub const RUNS: &'static str = r#"
    SELECT wr.id,wr.workflow_name,wr.run_number,wr.run_attempt,wr.event,wr.status,wr.conclusion,
        wr.head_branch,wr.head_sha,wr.actor_login,wr.html_url,wr.started_at,wr.completed_at,
        wr.github_created_at AS created_at,repo.full_name AS repository,ui.permission AS
        installation_permission,COUNT(wj.id) AS job_count,COUNT(CASE WHEN
        wj.status='in_progress' THEN 1 END) AS active_jobs,COUNT(CASE WHEN
        wj.conclusion='failure' THEN 1 END) AS failed_jobs
    FROM workflow_runs wr
    JOIN repositories repo ON repo.id=wr.repository_id
    JOIN user_installations ui ON ui.installation_id=repo.installation_id AND ui.user_id=?
    LEFT JOIN workflow_jobs wj ON wj.run_id=wr.id
    GROUP BY wr.id
    ORDER BY wr.github_created_at DESC LIMIT ? OFFSET ?"#;

/// A run that someone can see.
pub const RUN: &'static str = r#"
    SELECT wr.id,wr.workflow_name,wr.run_number,wr.run_attempt,wr.event,wr.status,wr.conclusion,
        wr.head_branch,wr.head_sha,wr.actor_login,wr.html_url,wr.started_at,wr.completed_at,
        wr.github_created_at AS created_at,repo.full_name AS repository,ui.permission AS
        installation_permission
    FROM workflow_runs wr
    JOIN repositories repo ON repo.id=wr.repository_id
    JOIN user_installations ui ON ui.installation_id=repo.installation_id
    WHERE wr.id=? AND ui.user_id=?"#;

/// Where a run that someone can see takes place.
pub const RUN_PLACE: &'static str = r#"
    SELECT repo.owner,repo.name,repo.id AS repository_id,repo.installation_id
    FROM workflow_runs wr
    JOIN repositories repo ON repo.id=wr.repository_id
    JOIN user_installations ui ON ui.installation_id=repo.installation_id
    WHERE wr.id=? AND ui.user_id=?"#;

/// A run, if it is not known yet.
pub const ADD_RUN: &'static str = r#"
    INSERT INTO workflow_runs (id,repository_id,workflow_id,workflow_name,run_number,
        run_attempt,event,status,conclusion,head_branch,head_sha,actor_login,html_url,
        started_at,completed_at,github_created_at,github_updated_at,created_at,updated_at)
    VALUES (?,?,?,?,?,?,?,?,?,?,?,?,?,?,?,?,?,?,?) ON CONFLICT(id) DO NOTHING"#;

/// A run as it is now.
pub const KEEP_RUN: &'static str = r#"
    INSERT INTO workflow_runs (id,repository_id,workflow_id,workflow_name,run_number,
        run_attempt,event,status,conclusion,head_branch,head_sha,actor_login,html_url,
        started_at,completed_at,github_created_at,github_updated_at,created_at,updated_at)
    VALUES (?,?,?,?,?,?,?,?,?,?,?,?,?,?,?,?,?,?,?) ON CONFLICT(id) DO UPDATE SET
        repository_id=excluded.repository_id,workflow_id=excluded.workflow_id,
        workflow_name=excluded.workflow_name,run_number=excluded.run_number,
        run_attempt=excluded.run_attempt,event=excluded.event,status=excluded.status,
        conclusion=excluded.conclusion,head_branch=excluded.head_branch,
        head_sha=excluded.head_sha,actor_login=excluded.actor_login,html_url=excluded.html_url,
        started_at=excluded.started_at,completed_at=excluded.completed_at,
        github_created_at=excluded.github_created_at,
        github_updated_at=excluded.github_updated_at,updated_at=excluded.updated_at"#;

/// The jobs of a run.
pub const JOBS_OF_RUN: &'static str = r#"
    SELECT wj.id,wj.name,wj.status,wj.conclusion,wj.runner_name,wj.runner_group_name,wj.labels,
        wj.html_url,wj.started_at,wj.completed_at,(SELECT r.id FROM runners r WHERE
        r.current_job_id=wj.id AND r.deleted_at IS NULL ORDER BY r.updated_at DESC LIMIT 1) AS
        live_runner_id,(SELECT ls.id FROM log_streams ls WHERE ls.job_id=wj.id AND ls.complete=1
        ORDER BY ls.created_at DESC LIMIT 1) AS archived_log_id
    FROM workflow_jobs wj
    WHERE wj.run_id=?
    ORDER BY wj.created_at"#;

/// A job that someone can see.
pub const JOB: &'static str = r#"
    SELECT job.id,job.run_id,job.name,job.status,job.conclusion,job.started_at,job.completed_at,
        run.run_number,run.workflow_name,repo.owner,repo.name AS repository_name,repo.full_name,
        repo.installation_id
    FROM workflow_jobs job
    JOIN workflow_runs run ON run.id=job.run_id
    JOIN repositories repo ON repo.id=run.repository_id
    JOIN user_installations access ON access.installation_id=repo.installation_id
    WHERE job.id=? AND access.user_id=?"#;

/// A job as an event tells of it.
pub const KEEP_JOB: &'static str = r#"
    INSERT INTO workflow_jobs (id,run_id,name,status,conclusion,runner_id,runner_name,
        runner_group_id,runner_group_name,labels,html_url,started_at,completed_at,created_at,
        updated_at)
    VALUES (?,?,?,?,?,?,?,?,?,?,?,?,?,?,?) ON CONFLICT(id) DO UPDATE SET status=excluded.status,
        conclusion=excluded.conclusion,runner_id=excluded.runner_id,
        runner_name=excluded.runner_name,runner_group_id=excluded.runner_group_id,
        runner_group_name=excluded.runner_group_name,labels=excluded.labels,
        started_at=excluded.started_at,completed_at=excluded.completed_at,
        updated_at=excluded.updated_at"#;

/// A job as GitHub lists it.
pub const KEEP_LISTED_JOB: &'static str = r#"
    INSERT INTO workflow_jobs (id,run_id,name,status,conclusion,runner_id,runner_name,
        runner_group_id,runner_group_name,labels,html_url,started_at,completed_at,created_at,
        updated_at)
    VALUES (?,?,?,?,?,?,?,?,?,?,?,?,?,?,?) ON CONFLICT(id) DO UPDATE SET run_id=excluded.run_id,
        name=excluded.name,status=excluded.status,conclusion=excluded.conclusion,
        runner_id=excluded.runner_id,runner_name=excluded.runner_name,
        runner_group_id=excluded.runner_group_id,runner_group_name=excluded.runner_group_name,
        labels=excluded.labels,html_url=excluded.html_url,started_at=excluded.started_at,
        completed_at=excluded.completed_at,updated_at=excluded.updated_at"#;

/// The jobs that wait for a runner.
pub const WAITING_JOBS: &'static str = r#"
    SELECT repo.id,repo.installation_id,wj.labels
    FROM workflow_jobs wj
    JOIN workflow_runs wr ON wr.id=wj.run_id
    JOIN repositories repo ON repo.id=wr.repository_id
    WHERE wj.status='queued'
    ORDER BY wj.created_at,wj.id"#;

// ---------------------------------------------------------------------------
// Logs

/// How many logs someone can read.
pub const LOG_TARGET_COUNT: &'static str = r#"
    SELECT (SELECT COUNT(*) FROM runners r JOIN runner_pools p ON p.id=r.pool_id JOIN
        workflow_jobs job ON job.id=COALESCE(r.current_job_id,r.last_job_id) WHERE r.deleted_at
        IS NULL AND r.container_id IS NOT NULL AND EXISTS (SELECT 1 FROM
        runner_pool_installations mapped WHERE mapped.pool_id=p.id) AND NOT EXISTS (SELECT 1
        FROM runner_pool_installations mapped WHERE mapped.pool_id=p.id AND NOT EXISTS (SELECT 1
        FROM user_installations access WHERE access.user_id=? AND
        access.installation_id=mapped.installation_id))) + (SELECT COUNT(*) FROM log_streams ls
        JOIN user_installations ui ON ui.installation_id=ls.installation_id AND ui.user_id=?
        WHERE ls.complete=1 AND ls.job_id IS NOT NULL)"#;

/// The logs that someone can read, by page: the one that is asked for first, then those of
/// running containers.
pub const LOG_TARGETS: &'static str = r#"
    SELECT id,runner_id,name,status,busy,container_id,updated_at,pool_name,repository,kind,
        size_bytes,job_id,run_id,job_name,job_status,job_conclusion,run_number,workflow_name
    FROM (SELECT r.id,CAST(NULL AS TEXT) AS runner_id,r.name,r.status,r.busy,r.container_id,
        r.updated_at,p.name AS pool_name,repo.full_name AS repository,'live' AS kind,CAST(NULL
        AS INTEGER) AS size_bytes,job.id AS job_id,job.run_id,job.name AS job_name,job.status AS
        job_status,job.conclusion AS job_conclusion,run.run_number,run.workflow_name FROM
        runners r JOIN runner_pools p ON p.id=r.pool_id JOIN workflow_jobs job ON
        job.id=COALESCE(r.current_job_id,r.last_job_id) JOIN workflow_runs run ON
        run.id=job.run_id JOIN repositories repo ON repo.id=run.repository_id WHERE r.deleted_at
        IS NULL AND r.container_id IS NOT NULL AND EXISTS (SELECT 1 FROM
        runner_pool_installations mapped WHERE mapped.pool_id=p.id) AND NOT EXISTS (SELECT 1
        FROM runner_pool_installations mapped WHERE mapped.pool_id=p.id AND NOT EXISTS (SELECT 1
        FROM user_installations access WHERE access.user_id=? AND
        access.installation_id=mapped.installation_id)) UNION ALL SELECT ls.id,ls.runner_id,
        COALESCE(ls.runner_name,'Archived runner'),'archived',0,NULL,ls.created_at,
        COALESCE(ls.pool_name,'Deleted pool'),COALESCE(repo.full_name,ls.repository),'archive',
        ls.size_bytes,job.id,job.run_id,job.name,job.status,job.conclusion,run.run_number,
        run.workflow_name FROM log_streams ls JOIN user_installations ui ON
        ui.installation_id=ls.installation_id AND ui.user_id=? JOIN workflow_jobs job ON
        job.id=ls.job_id JOIN workflow_runs run ON run.id=job.run_id JOIN repositories repo ON
        repo.id=run.repository_id WHERE ls.complete=1 AND ls.job_id IS NOT NULL) targets
    ORDER BY CASE WHEN id=? OR runner_id=? THEN 0 ELSE 1 END,CASE kind WHEN 'live' THEN 0 ELSE 1
        END,busy DESC,updated_at DESC LIMIT ? OFFSET ?"#;

/// A kept log that someone can read.
pub const LOG_STREAM: &'static str = r#"
    SELECT ls.path,ls.runner_name
    FROM log_streams ls
    JOIN user_installations ui ON ui.installation_id=ls.installation_id
    WHERE ls.id=? AND ui.user_id=? AND ls.complete=1"#;

/// The latest kept log of a job that someone can read.
pub const LOG_STREAM_OF_JOB: &'static str = r#"
    SELECT stream.path
    FROM log_streams stream
    JOIN user_installations access ON access.installation_id=stream.installation_id
    WHERE stream.job_id=? AND stream.complete=1 AND access.user_id=?
    ORDER BY stream.created_at DESC LIMIT 1"#;

/// The container that runs or ran a job that someone can see.
pub const CONTAINER_OF_JOB: &'static str = r#"
    SELECT runner.container_id
    FROM runners runner
    JOIN runner_pools p ON p.id=runner.pool_id
    WHERE runner.deleted_at IS NULL AND runner.container_id IS NOT NULL AND
        (runner.current_job_id=? OR runner.last_job_id=?) AND EXISTS (SELECT 1 FROM
        runner_pool_installations mapped WHERE mapped.pool_id=p.id) AND NOT EXISTS (SELECT 1
        FROM runner_pool_installations mapped WHERE mapped.pool_id=p.id AND NOT EXISTS (SELECT 1
        FROM user_installations access WHERE access.user_id=? AND
        access.installation_id=mapped.installation_id))
    ORDER BY CASE WHEN runner.current_job_id=? THEN 0 ELSE 1 END,runner.updated_at DESC LIMIT 1"#;

/// Whether a log of a runner is kept.
pub const KEPT_LOG: &'static str = r#"
    SELECT id
    FROM log_streams
    WHERE runner_id=? AND source=? AND complete=1 LIMIT 1"#;

/// A log is kept.
pub const ADD_LOG_STREAM: &'static str = r#"
    INSERT INTO log_streams (id,runner_id,job_id,installation_id,runner_name,pool_name,
        repository,source,path,size_bytes,complete,checksum,expires_at,created_at,updated_at)
    VALUES (?,?,?,?,?,?,?,?,?,?,1,?,?,?,?)"#;

/// The files of logs whose time is over.
pub const EXPIRED_LOGS: &'static str = r#"
    SELECT path
    FROM log_streams
    WHERE expires_at IS NOT NULL AND expires_at < ?"#;

/// Logs whose time is over are forgotten.
pub const DROP_EXPIRED_LOGS: &'static str = r#"
    DELETE
    FROM log_streams
    WHERE expires_at IS NOT NULL AND expires_at < ?"#;

/// How many bytes the kept logs take.
pub const LOG_BYTES: &'static str = r#"
    SELECT COALESCE(SUM(size_bytes),0)
    FROM log_streams
    WHERE complete=1"#;

/// The kept logs, the oldest first.
pub const OLDEST_LOGS: &'static str = r#"
    SELECT id,path,size_bytes
    FROM log_streams
    WHERE complete=1
    ORDER BY created_at,id"#;

// ---------------------------------------------------------------------------
// Webhooks

/// A delivery, if it is not known yet.
pub const ADD_DELIVERY: &'static str = r#"
    INSERT INTO webhook_deliveries (id,event,action,hook_id,installation_id,repository_id,
        signature_valid,status,payload,received_at)
    VALUES (?,?,?,?,?,?,?,'received',?,?) ON CONFLICT(id) DO NOTHING"#;

/// What became of a delivery.
pub const KEEP_DELIVERY: &'static str = r#"
    UPDATE webhook_deliveries SET status=?,error=?,processed_at=?
    WHERE id=?"#;

/// A delivery that is not processed.
pub const REJECT_DELIVERY: &'static str = r#"
    UPDATE webhook_deliveries SET status=?,error=?
    WHERE id=?"#;

/// A delivery that is tried again.
pub const DELIVERY_TO_RETRY: &'static str = r#"
    SELECT event,action,installation_id,signature_valid,payload
    FROM webhook_deliveries wd
    WHERE wd.id=? AND (wd.installation_id IS NULL OR EXISTS (SELECT 1 FROM user_installations ui
        WHERE ui.installation_id=wd.installation_id AND ui.user_id=?))"#;

/// What a delivery that someone can see holds.
pub const DELIVERY_PAYLOAD: &'static str = r#"
    SELECT wd.id,wd.event,wd.payload
    FROM webhook_deliveries wd
    WHERE wd.id=? AND ((wd.installation_id IS NULL AND ?='admin') OR EXISTS (SELECT 1 FROM
        user_installations ui WHERE ui.installation_id=wd.installation_id AND ui.user_id=?))"#;

/// How many deliveries someone can see.
pub const DELIVERY_COUNT: &'static str = r#"
    SELECT COUNT(*)
    FROM webhook_deliveries wd
    WHERE (wd.installation_id IS NULL OR EXISTS (SELECT 1 FROM user_installations ui WHERE
        ui.installation_id=wd.installation_id AND ui.user_id=?))"#;

/// The deliveries that someone can see, by page.
pub const DELIVERIES: &'static str = r#"
    SELECT wd.id,wd.event,wd.action,wd.installation_id,wd.repository_id,wd.signature_valid,
        wd.status,wd.error,wd.received_at,wd.processed_at,wd.payload IS NOT NULL AS has_payload,
        CASE WHEN wd.installation_id IS NULL THEN ?='admin' ELSE EXISTS (SELECT 1 FROM
        user_installations manage WHERE manage.installation_id=wd.installation_id AND
        manage.user_id=? AND (manage.permission='admin' OR ?='admin')) END AS can_retry,
        i.account_login,repo.full_name AS repository
    FROM webhook_deliveries wd
    LEFT JOIN installations i ON i.id=wd.installation_id
    LEFT JOIN repositories repo ON repo.id=wd.repository_id
    WHERE (wd.installation_id IS NULL OR EXISTS (SELECT 1 FROM user_installations ui WHERE
        ui.installation_id=wd.installation_id AND ui.user_id=?))
    ORDER BY wd.received_at DESC LIMIT ? OFFSET ?"#;

/// How many deliveries that someone can see have failed since an instant.
pub const FAILED_WEBHOOKS: &'static str = r#"
    SELECT COUNT(*)
    FROM webhook_deliveries wd
    WHERE wd.status='failed' AND wd.received_at>=? AND (wd.installation_id IS NULL OR EXISTS
        (SELECT 1 FROM user_installations ui WHERE ui.installation_id=wd.installation_id AND
        ui.user_id=?))"#;

// ---------------------------------------------------------------------------
// The overview

/// How many runners, jobs and runs someone can see.
pub const OVERVIEW_FIGURES: &'static str = r#"
    SELECT COUNT(DISTINCT CASE WHEN r.deleted_at IS NULL THEN r.id END) AS runners,
        COUNT(DISTINCT CASE WHEN r.deleted_at IS NULL AND r.status IN ('idle','busy','online')
        THEN r.id END) AS online,COUNT(DISTINCT CASE WHEN r.deleted_at IS NULL AND r.busy=1 THEN
        r.id END) AS busy,(SELECT COUNT(*) FROM workflow_jobs wj JOIN workflow_runs wr ON
        wr.id=wj.run_id JOIN repositories repo ON repo.id=wr.repository_id JOIN
        user_installations ui2 ON ui2.installation_id=repo.installation_id WHERE ui2.user_id=?
        AND wj.status='queued') AS queued_jobs,(SELECT COUNT(*) FROM workflow_runs wr JOIN
        repositories repo ON repo.id=wr.repository_id JOIN user_installations ui3 ON
        ui3.installation_id=repo.installation_id WHERE ui3.user_id=? AND wr.completed_at IS NOT
        NULL) AS completed_runs,(SELECT COUNT(*) FROM workflow_runs wr JOIN repositories repo ON
        repo.id=wr.repository_id JOIN user_installations ui4 ON
        ui4.installation_id=repo.installation_id WHERE ui4.user_id=? AND
        wr.conclusion='success') AS successful_runs
    FROM runner_pools p
    LEFT JOIN runners r ON r.pool_id=p.id
    WHERE EXISTS (SELECT 1 FROM runner_pool_installations mapped WHERE mapped.pool_id=p.id) AND
        NOT EXISTS (SELECT 1 FROM runner_pool_installations mapped WHERE mapped.pool_id=p.id AND
        NOT EXISTS (SELECT 1 FROM user_installations access WHERE access.user_id=? AND
        access.installation_id=mapped.installation_id))"#;

/// The jobs that someone can see since an instant.
pub const JOBS_OF_DAY: &'static str = r#"
    SELECT wj.status,wj.conclusion,wj.created_at,wj.started_at
    FROM workflow_jobs wj
    JOIN workflow_runs wr ON wr.id=wj.run_id
    JOIN repositories repo ON repo.id=wr.repository_id
    JOIN user_installations ui ON ui.installation_id=repo.installation_id
    WHERE ui.user_id=? AND wj.created_at>=?"#;

/// How many pools that someone can see have given up.
pub const OPEN_CIRCUITS: &'static str = r#"
    SELECT COALESCE(SUM(CASE WHEN p.provision_circuit_open=1 THEN 1 ELSE 0 END),0)
    FROM runner_pools p
    WHERE EXISTS (SELECT 1 FROM runner_pool_installations mapped WHERE mapped.pool_id=p.id) AND
        NOT EXISTS (SELECT 1 FROM runner_pool_installations mapped WHERE mapped.pool_id=p.id AND
        NOT EXISTS (SELECT 1 FROM user_installations access WHERE access.user_id=? AND
        access.installation_id=mapped.installation_id))"#;

/// The latest pools that someone can see.
pub const OVERVIEW_POOLS: &'static str = r#"
    SELECT p.id,p.name,p.scope,p.desired_count AS desired,p.mode,p.state,p.paused,COUNT(CASE
        WHEN r.deleted_at IS NULL AND r.status IN ('idle','busy','online') THEN 1 END) AS
        online,COUNT(CASE WHEN r.deleted_at IS NULL AND r.busy=1 THEN 1 END) AS busy,(SELECT
        COUNT(*) FROM workflow_jobs wj JOIN workflow_runs wr ON wr.id=wj.run_id JOIN
        repositories queued_repo ON queued_repo.id=wr.repository_id WHERE wj.status='queued' AND
        (EXISTS (SELECT 1 FROM runner_pool_repositories membership WHERE membership.pool_id=p.id
        AND membership.repository_id=queued_repo.id) OR queued_repo.id=p.repository_id OR
        (p.scope='organization' AND queued_repo.installation_id=p.installation_id))) AS queue
    FROM runner_pools p
    LEFT JOIN runners r ON r.pool_id=p.id
    WHERE EXISTS (SELECT 1 FROM runner_pool_installations mapped WHERE mapped.pool_id=p.id) AND
        NOT EXISTS (SELECT 1 FROM runner_pool_installations mapped WHERE mapped.pool_id=p.id AND
        NOT EXISTS (SELECT 1 FROM user_installations access WHERE access.user_id=? AND
        access.installation_id=mapped.installation_id))
    GROUP BY p.id
    ORDER BY p.created_at DESC LIMIT 8"#;

/// The latest runs that someone can see.
pub const LATEST_RUNS: &'static str = r#"
    SELECT wr.id,repo.full_name AS repository,wr.workflow_name AS workflow,wr.head_branch AS
        branch,wr.status,wr.conclusion,wr.started_at,wr.completed_at,wr.html_url
    FROM workflow_runs wr
    JOIN repositories repo ON repo.id=wr.repository_id
    JOIN user_installations ui ON ui.installation_id=repo.installation_id
    WHERE ui.user_id=?
    ORDER BY wr.github_created_at DESC LIMIT 6"#;

/// What happened last in the pools that someone can see.
pub const LATEST_EVENTS: &'static str = r#"
    SELECT re.id,re.level,re.event,re.message,re.runner_id,re.pool_id,re.created_at
    FROM runner_events re
    WHERE EXISTS (SELECT 1 FROM runner_pools p WHERE p.id=re.pool_id AND EXISTS (SELECT 1 FROM
        runner_pool_installations mapped WHERE mapped.pool_id=p.id) AND NOT EXISTS (SELECT 1
        FROM runner_pool_installations mapped WHERE mapped.pool_id=p.id AND NOT EXISTS (SELECT 1
        FROM user_installations access WHERE access.user_id=? AND
        access.installation_id=mapped.installation_id)))
    ORDER BY re.created_at DESC LIMIT 8"#;

/// The capacity that someone can see, over time.
pub const CAPACITY: &'static str = r#"
    SELECT bucket AS recorded_at,SUM(available) AS available,SUM(busy) AS busy,SUM(queued) AS
        queued
    FROM (SELECT cs.pool_id,(cs.recorded_at / ?) * ? AS bucket,CAST(ROUND(AVG(cs.available)) AS
        INTEGER) AS available,CAST(ROUND(AVG(cs.busy)) AS INTEGER) AS busy,
        CAST(ROUND(AVG(cs.queued)) AS INTEGER) AS queued FROM capacity_samples cs JOIN
        runner_pools p ON p.id=cs.pool_id WHERE cs.recorded_at>=? AND EXISTS (SELECT 1 FROM
        runner_pool_installations mapped WHERE mapped.pool_id=p.id) AND NOT EXISTS (SELECT 1
        FROM runner_pool_installations mapped WHERE mapped.pool_id=p.id AND NOT EXISTS (SELECT 1
        FROM user_installations access WHERE access.user_id=? AND
        access.installation_id=mapped.installation_id)) GROUP BY cs.pool_id,bucket) samples
    GROUP BY bucket
    ORDER BY bucket"#;

// ---------------------------------------------------------------------------
// Settings and the audit

/// A setting that someone made.
pub const KEEP_SETTING: &'static str = r#"
    INSERT INTO settings (key,value,updated_by,updated_at)
    VALUES (?,?,?,?) ON CONFLICT(key) DO UPDATE SET value=excluded.value,
        updated_by=excluded.updated_by,updated_at=excluded.updated_at"#;

/// When the runs were last read.
pub const KEEP_SYNC_TIME: &'static str = r#"
    INSERT INTO settings (key,value,updated_at)
    VALUES ('lastGithubSyncAt',?,?) ON CONFLICT(key) DO UPDATE SET value=excluded.value,
        updated_at=excluded.updated_at"#;

/// A new sealed secret.
pub const ADD_SECRET: &'static str = r#"
    INSERT INTO runtime_secrets (key,value,updated_by,updated_at)
    VALUES (?,?,?,?)"#;

/// A sealed secret.
pub const KEEP_SECRET: &'static str = r#"
    INSERT INTO runtime_secrets (key,value,updated_by,updated_at)
    VALUES (?,?,?,?) ON CONFLICT(key) DO UPDATE SET value=excluded.value,
        updated_by=excluded.updated_by,updated_at=excluded.updated_at"#;

/// Begins to set up the App.
pub const ADD_MANIFEST_STATE: &'static str = r#"
    INSERT INTO github_app_manifest_states (id,state_hash,user_id,expires_at,created_at)
    VALUES (?,?,?,?,?)"#;

/// A setup of the App that was begun.
pub const MANIFEST_STATE: &'static str = r#"
    SELECT ms.id,ms.user_id,ms.expires_at,u.login,u.role
    FROM github_app_manifest_states ms
    JOIN users u ON u.id=ms.user_id
    WHERE ms.state_hash=?"#;

/// The connections to Bitbucket.
pub const CONNECTIONS: &'static str = r#"
    SELECT id,name,workspace,workspace_uuid,created_at,updated_at
    FROM bitbucket_connections
    ORDER BY lower(name),id"#;

/// The connections to Bitbucket that a pool can have.
pub const CONNECTION_CHOICES: &'static str = r#"
    SELECT id,name,workspace,workspace_uuid
    FROM bitbucket_connections
    ORDER BY lower(name),id"#;

/// A connection to Bitbucket.
pub const CONNECTION: &'static str = r#"
    SELECT id,workspace,workspace_uuid,access_token_key
    FROM bitbucket_connections
    WHERE id=?"#;

/// A new connection to Bitbucket.
pub const ADD_CONNECTION: &'static str = r#"
    INSERT INTO bitbucket_connections (id,name,workspace,workspace_uuid,access_token_key,
        created_by,created_at,updated_at)
    VALUES (?,?,?,?,?,?,?,?)"#;

/// How many deeds someone can see.
pub const AUDIT_COUNT: &'static str = r#"
    SELECT COUNT(*)
    FROM audit_events
    WHERE actor_user_id=? OR actor_label='system'"#;

/// The deeds that someone can see, by page.
pub const AUDIT: &'static str = r#"
    SELECT id,actor_label,action,target_type,target_id,metadata,ip_address,created_at
    FROM audit_events
    WHERE actor_user_id=? OR actor_label='system'
    ORDER BY created_at DESC LIMIT ? OFFSET ?"#;

/// A deed.
pub const ADD_AUDIT: &'static str = r#"
    INSERT INTO audit_events (id,actor_user_id,actor_label,action,target_type,target_id,
        metadata,created_at)
    VALUES (?,?,?,?,?,?,?,?)"#;

/// That the App was set up.
pub const ADD_SETUP_AUDIT: &'static str = r#"
    INSERT INTO audit_events (id,actor_user_id,actor_label,action,target_type,target_id,
        metadata,created_at)
    VALUES (?,?,?,'github_app.configured','github_app',?,?,?)"#;

// ---------------------------------------------------------------------------
// Counting and forgetting

/// How many administer the system.
pub const ADMIN_COUNT: &'static str = "SELECT COUNT(*) FROM users WHERE role='admin'";

/// A session that is used.
pub const TOUCH_SESSION: &'static str = "UPDATE sessions SET last_seen_at=? WHERE id=?";

/// A setup of the App that was answered.
pub const DROP_MANIFEST_STATE: &'static str = "DELETE FROM github_app_manifest_states WHERE id=?";

/// A registration that was taken back.
pub const DROP_CLEANUP: &'static str = "DELETE FROM github_runner_cleanup WHERE id=?";

/// How much happened in a pool.
pub const EVENT_COUNT_OF_POOL: &'static str = "SELECT COUNT(*) FROM runner_events WHERE pool_id=?";

/// Someone's profile.
pub const PROFILE: &'static str = "SELECT name,email,avatar_url FROM users WHERE id=?";

/// How many runners a pool asks for now.
pub const DESIRED_COUNT: &'static str = "SELECT desired_count FROM runner_pools WHERE id=?";

/// Deliveries from before an instant are forgotten.
pub const DROP_OLD_DELIVERIES: &'static str =
    "DELETE FROM webhook_deliveries WHERE received_at < ?";

/// Deeds from before an instant are forgotten.
pub const DROP_OLD_AUDITS: &'static str = "DELETE FROM audit_events WHERE created_at < ?";

/// Samples from before an instant are forgotten.
pub const DROP_OLD_SAMPLES: &'static str = "DELETE FROM capacity_samples WHERE recorded_at < ?";

}
